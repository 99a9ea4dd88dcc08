//! Row forms of mined data for the relational backend.
//!
//! The relational storage persists blocks as flat rows. The structs here
//! are those rows as plain values, and the conversions flatten a mined
//! transaction and its logs into them; executing SQL against them is the
//! embedding program's business.

use vstd::prelude::*;

use crate::address::Address;
use crate::log::LogMined;
use crate::transaction::TransactionMined;
use crate::values::{BlockNumber, Gas, Index, Nonce};

verus! {

/// Row of the transactions table.
#[derive(Debug)]
pub struct PostgresTransaction {
    /// Hash of the transaction.
    pub hash: crate::hash::Hash,
    /// Signer recovered from the signature.
    pub signer_address: Address,
    /// Declared nonce.
    pub nonce: Nonce,
    /// Declared sender.
    pub address_from: Address,
    /// Recipient; null for a deployment.
    pub address_to: Option<Address>,
    /// Call data.
    pub input: Vec<u8>,
    /// Gas limit.
    pub gas: Gas,
    /// Position of the transaction inside its block.
    pub idx_in_block: Index,
    /// Number of the block.
    pub block_number: BlockNumber,
    /// Hash of the block.
    pub block_hash: crate::hash::Hash,
}

/// Row of the logs table.
#[derive(Debug)]
pub struct PostgresLogs {
    /// Address that emitted the log.
    pub address: Address,
    /// Log data.
    pub data: Vec<u8>,
    /// Hash of the emitting transaction.
    pub transaction_hash: crate::hash::Hash,
    /// Position of that transaction inside its block.
    pub transaction_idx: Index,
    /// Position of the log inside its block.
    pub log_idx: Index,
    /// Number of the block.
    pub block_number: BlockNumber,
    /// Hash of the block.
    pub block_hash: crate::hash::Hash,
}

/// Row of the log topics table.
#[derive(Debug)]
pub struct PostgresTopic {
    /// The topic bytes.
    pub topic: Vec<u8>,
    /// Hash of the emitting transaction.
    pub transaction_hash: crate::hash::Hash,
    /// Position of that transaction inside its block.
    pub transaction_idx: Index,
    /// Position of the log inside its block.
    pub log_idx: Index,
    /// Number of the block.
    pub block_number: BlockNumber,
    /// Hash of the block.
    pub block_hash: crate::hash::Hash,
}

impl PostgresTransaction {
    /// Flattens a mined transaction into its row.
    pub fn from_mined(
        tx: &TransactionMined,
        block_number: BlockNumber,
        block_hash: crate::hash::Hash,
    ) -> (r: Self)
        ensures
            r.hash == tx.input.hash,
            r.signer_address == tx.input.signer,
            r.nonce == tx.input.nonce,
            r.address_from == tx.input.from,
            r.address_to == tx.input.to,
            r.input@ == tx.input.input@,
            r.gas == tx.input.gas,
            r.idx_in_block == tx.transaction_index,
            r.block_number == block_number,
            r.block_hash == block_hash,
    {
        let input = tx.input.input.clone();
        proof {
            assert(input@ =~= tx.input.input@);
        }
        PostgresTransaction {
            hash: tx.input.hash,
            signer_address: tx.input.signer,
            nonce: tx.input.nonce,
            address_from: tx.input.from,
            address_to: tx.input.to,
            input,
            gas: tx.input.gas,
            idx_in_block: tx.transaction_index,
            block_number,
            block_hash,
        }
    }
}

impl PostgresLogs {
    /// Flattens a mined log into its row.
    pub fn from_mined(log: &LogMined) -> (r: Self)
        ensures
            r.address == log.log.address,
            r.data@ == log.log.data@,
            r.transaction_hash == log.transaction_hash,
            r.transaction_idx == log.transaction_index,
            r.log_idx == log.log_index,
            r.block_number == log.block_number,
            r.block_hash == log.block_hash,
    {
        let data = log.log.data.clone();
        proof {
            assert(data@ =~= log.log.data@);
        }
        PostgresLogs {
            address: log.log.address,
            data,
            transaction_hash: log.transaction_hash,
            transaction_idx: log.transaction_index,
            log_idx: log.log_index,
            block_number: log.block_number,
            block_hash: log.block_hash,
        }
    }
}

impl PostgresTopic {
    /// Flattens a mined log's topics into their rows, one per topic, in
    /// position order.
    pub fn rows_of(log: &LogMined) -> (r: Vec<Self>)
        ensures
            r@.len() == log.log.topics@.len(),
            forall|i: int|
                0 <= i < r@.len() ==> {
                    let row = #[trigger] r@[i];
                    row.topic@ == log.log.topics@[i]@ && row.transaction_hash
                        == log.transaction_hash && row.transaction_idx == log.transaction_index
                        && row.log_idx == log.log_index && row.block_number == log.block_number
                        && row.block_hash == log.block_hash
                },
    {
        let mut rows: Vec<PostgresTopic> = Vec::new();
        let n = log.log.topics.len();
        let mut i: usize = 0;
        while i < n
            invariant
                i <= n,
                n == log.log.topics@.len(),
                rows@.len() == i,
                forall|j: int|
                    0 <= j < i ==> {
                        let row = #[trigger] rows@[j];
                        row.topic@ == log.log.topics@[j]@ && row.transaction_hash
                            == log.transaction_hash && row.transaction_idx
                            == log.transaction_index && row.log_idx == log.log_index
                            && row.block_number == log.block_number && row.block_hash
                            == log.block_hash
                    },
            decreases n - i,
        {
            let topic = log.log.topics[i];
            let mut topic_bytes: Vec<u8> = Vec::new();
            crate::block::append_bytes(&mut topic_bytes, topic.0.as_slice());
            proof {
                assert(topic_bytes@ =~= topic@);
            }
            rows.push(
                PostgresTopic {
                    topic: topic_bytes,
                    transaction_hash: log.transaction_hash,
                    transaction_idx: log.transaction_index,
                    log_idx: log.log_index,
                    block_number: log.block_number,
                    block_hash: log.block_hash,
                },
            );
            i = i + 1;
        }
        rows
    }
}

} // verus!
