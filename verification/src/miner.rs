//! The block miner: assembles a single-transaction block from a successful
//! execution and the previous head.
//!
//! Mining is a pure function of the previous header, the transaction, its
//! execution and the clock reading: the timestamp strictly increases along
//! the chain, state changes of ignored addresses are dropped, the single
//! transaction gets index zero and its logs are numbered in emission
//! order, and the block hash is the digest of the canonical header
//! encoding.

use vstd::prelude::*;

use crate::address::{coinbase_address, is_ignored_address, Address};
use crate::block::{block_logs, compute_block_hash, header_bytes, keccak_of, keccak256, Block,
    BlockHeader};
use crate::execution::{Execution, ExecutionAccountChange};
use crate::hash::zero_hash;
use crate::log::LogMined;
use crate::transaction::{TransactionInput, TransactionMined};
use crate::values::{BlockNumber, Index};

verus! {

/// The predicate dropping state changes of ignored addresses.
pub open spec fn keeps_change(c: ExecutionAccountChange) -> bool {
    !is_ignored_address(c.address@)
}

/// The changes of an execution with ignored addresses dropped.
pub open spec fn drop_ignored(changes: Seq<ExecutionAccountChange>) -> Seq<
    ExecutionAccountChange,
> {
    changes.filter(|c: ExecutionAccountChange| keeps_change(c))
}

/// Assembles the block that mines one transaction on top of the previous
/// head (none for the genesis block).
///
/// The block's number follows the parent's, its timestamp strictly
/// exceeds the parent's, its parent hash is the parent's hash (zero at
/// genesis), state changes of ignored addresses are dropped, the single
/// transaction has index zero and its logs are numbered from zero in
/// emission order, and the block hash is the digest of the canonical
/// header encoding.
pub fn mine_with_one_transaction(
    prev: Option<&BlockHeader>,
    input: TransactionInput,
    execution: Execution,
    now: u64,
) -> (r: Block)
    requires
        prev matches Some(h) ==> h.number.0 < u64::MAX && h.timestamp < u64::MAX,
    ensures
        r.header.number.0 == (match prev {
            Some(h) => h.number.0 + 1,
            None => 0int,
        }),
        r.header.parent_hash@ == (match prev {
            Some(h) => h.hash@,
            None => zero_hash(),
        }),
        prev matches Some(h) ==> r.header.timestamp > h.timestamp,
        r.header.timestamp >= now,
        r.header.timestamp == (match prev {
            Some(h) => if now > h.timestamp { now as int } else { h.timestamp + 1 },
            None => now as int,
        }),
        r.header.miner@ == coinbase_address(),
        r.header.gas_used == execution.gas_used,
        r.header.transactions_root@ == keccak_of(input.hash@),
        r.header.hash@ == keccak_of(header_bytes(r.header)),
        r.transactions@.len() == 1,
        r.transactions@[0].transaction_index.0 == 0,
        r.transactions@[0].input == input,
        r.transactions@[0].execution.result == execution.result,
        r.transactions@[0].execution.output@ == execution.output@,
        r.transactions@[0].execution.gas_used == execution.gas_used,
        r.transactions@[0].execution.logs@ == execution.logs@,
        r.transactions@[0].execution.block_timestamp_in_use
            == execution.block_timestamp_in_use,
        r.transactions@[0].execution.changes@ == drop_ignored(execution.changes@),
        forall|i: int|
            0 <= i < r.transactions@[0].execution.changes@.len() ==> !is_ignored_address(
                (#[trigger] r.transactions@[0].execution.changes@[i]).address@,
            ),
        r.transactions@[0].logs@.len() == execution.logs@.len(),
        forall|i: int|
            0 <= i < execution.logs@.len() ==> {
                let ml = #[trigger] r.transactions@[0].logs@[i];
                crate::log::log_eqv(ml.log, execution.logs@[i]) && ml.log_index.0 == i
                    && ml.transaction_index.0 == 0 && ml.transaction_hash == input.hash
                    && ml.block_number == r.header.number && ml.block_hash == r.header.hash
            },
        block_logs(r) == r.transactions@[0].logs@,
        crate::block::block_wf(r),
{
    let number: u64 = match prev {
        Some(h) => h.number.0 + 1,
        None => 0,
    };
    let parent_hash: crate::hash::Hash = match prev {
        Some(h) => h.hash,
        None => crate::hash::Hash::zero(),
    };
    let timestamp: u64 = match prev {
        Some(h) => if now > h.timestamp {
            now
        } else {
            h.timestamp + 1
        },
        None => now,
    };

    let ghost orig_changes = execution.changes@;
    let ghost orig_logs = execution.logs@;
    let Execution { result, output, gas_used, logs, changes, block_timestamp_in_use } = execution;

    // drop state changes of ignored addresses
    let mut rest = changes;
    let mut filtered: Vec<ExecutionAccountChange> = Vec::new();
    let ghost mut done: int = 0;
    while rest.len() > 0
        invariant
            0 <= done <= orig_changes.len(),
            rest@ =~= orig_changes.skip(done),
            filtered@ =~= drop_ignored(orig_changes.take(done)),
            forall|j: int|
                0 <= j < filtered@.len() ==> !is_ignored_address(
                    (#[trigger] filtered@[j]).address@,
                ),
        decreases rest@.len(),
    {
        let c = rest.remove(0);
        proof {
            assert(c == orig_changes[done]);
            assert(orig_changes.take(done + 1).drop_last() =~= orig_changes.take(done));
            assert(orig_changes.take(done + 1).last() == c);
            reveal(Seq::filter);
        }
        if !c.address.is_ignored() {
            filtered.push(c);
        }
        proof {
            done = done + 1;
            assert(rest@ =~= orig_changes.skip(done));
        }
    }
    proof {
        assert(orig_changes.take(orig_changes.len() as int) =~= orig_changes);
        assert(filtered@ =~= drop_ignored(orig_changes));
    }

    // transactions root: digest of the single transaction's hash
    let mut root_input: Vec<u8> = Vec::new();
    crate::block::append_bytes(&mut root_input, input.hash.bytes.as_slice());
    proof {
        assert(root_input@ =~= input.hash@);
    }
    let transactions_root = crate::hash::Hash::new(keccak256(&root_input));

    let mut header = BlockHeader {
        number: BlockNumber(number),
        hash: crate::hash::Hash::zero(),
        parent_hash,
        timestamp,
        transactions_root,
        receipts_root: crate::hash::Hash::zero(),
        miner: Address::coinbase(),
        gas_used,
    };
    let block_hash = compute_block_hash(&header);
    let ghost sealed = header;
    header.hash = block_hash;
    proof {
        // the hash field is not part of the header encoding
        assert(header_bytes(header) =~= header_bytes(sealed));
    }

    // number the logs in emission order
    let mut mined_logs: Vec<LogMined> = Vec::new();
    let mut li: usize = 0;
    while li < logs.len()
        invariant
            li <= logs@.len(),
            logs@ == orig_logs,
            mined_logs@.len() == li,
            header.number.0 == number,
            header.hash == block_hash,
            forall|i: int|
                0 <= i < li ==> {
                    let ml = #[trigger] mined_logs@[i];
                    crate::log::log_eqv(ml.log, orig_logs[i]) && ml.log_index.0 == i
                        && ml.transaction_index.0 == 0 && ml.transaction_hash == input.hash
                        && ml.block_number == header.number && ml.block_hash == header.hash
                },
        decreases logs@.len() - li,
    {
        let lg = logs[li].clone();
        mined_logs.push(
            LogMined {
                log: lg,
                transaction_hash: input.hash,
                transaction_index: Index(0),
                log_index: Index(li as u64),
                block_number: header.number,
                block_hash: header.hash,
            },
        );
        li = li + 1;
    }

    let exec_mined = Execution {
        result,
        output,
        gas_used,
        logs,
        changes: filtered,
        block_timestamp_in_use,
    };
    let tx = TransactionMined {
        input,
        execution: exec_mined,
        logs: mined_logs,
        transaction_index: Index(0),
    };
    let mut transactions: Vec<TransactionMined> = Vec::new();
    transactions.push(tx);
    let b = Block { header, transactions };
    proof {
        assert(b.transactions@.drop_last() =~= Seq::<TransactionMined>::empty());
        assert(crate::block::txs_logs(Seq::<TransactionMined>::empty())
            =~= Seq::<LogMined>::empty());
        assert(block_logs(b) =~= b.transactions@[0].logs@);
    }
    b
}

} // verus!
