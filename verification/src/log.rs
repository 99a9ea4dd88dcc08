//! Ethereum log entries, raw and mined.
//!
//! A `Log` is an event emitted by the EVM during contract execution. Once
//! its transaction is mined the log becomes a `LogMined`, gaining the
//! coordinates of its block, its transaction, and its position.

use vstd::prelude::*;

use crate::address::Address;
use crate::values::{BlockNumber, Index, LogTopic};

verus! {

/// An event emitted by the EVM during contract execution.
#[derive(Debug)]
#[verifier::ext_equal]
pub struct Log {
    /// Address that emitted the log.
    pub address: Address,
    /// Topics (0 to 4 positions) describing the log.
    pub topics: Vec<LogTopic>,
    /// Additional data.
    pub data: Vec<u8>,
}

/// Whether two logs hold the same content.
pub open spec fn log_eqv(a: Log, b: Log) -> bool {
    a.address@ == b.address@ && a.topics@ == b.topics@ && a.data@ == b.data@
}

impl Clone for Log {
    fn clone(&self) -> (r: Self)
        ensures
            log_eqv(r, *self),
    {
        let topics = self.topics.clone();
        let data = self.data.clone();
        proof {
            assert(topics@ =~= self.topics@);
            assert(data@ =~= self.data@);
        }
        Log { address: self.address, topics, data }
    }
}

/// A log whose transaction was mined into a block.
#[derive(Debug)]
pub struct LogMined {
    /// The emitted log.
    pub log: Log,
    /// Hash of the transaction that emitted the log.
    pub transaction_hash: crate::hash::Hash,
    /// Position of that transaction inside its block.
    pub transaction_index: Index,
    /// Position of the log inside its block.
    pub log_index: Index,
    /// Number of the block the transaction was mined into.
    pub block_number: BlockNumber,
    /// Hash of that block.
    pub block_hash: crate::hash::Hash,
}

/// Whether two mined logs hold the same content and coordinates.
pub open spec fn log_mined_eqv(a: LogMined, b: LogMined) -> bool {
    log_eqv(a.log, b.log) && a.transaction_hash == b.transaction_hash && a.transaction_index
        == b.transaction_index && a.log_index == b.log_index && a.block_number == b.block_number
        && a.block_hash == b.block_hash
}

impl Clone for LogMined {
    fn clone(&self) -> (r: Self)
        ensures
            log_mined_eqv(r, *self),
    {
        LogMined {
            log: self.log.clone(),
            transaction_hash: self.transaction_hash,
            transaction_index: self.transaction_index,
            log_index: self.log_index,
            block_number: self.block_number,
            block_hash: self.block_hash,
        }
    }
}

impl LogMined {
    /// Address that emitted the log.
    pub fn address(&self) -> (r: &Address)
        ensures
            r == &self.log.address,
    {
        &self.log.address
    }

    /// Topics of the log.
    pub fn topics(&self) -> (r: &Vec<LogTopic>)
        ensures
            r == &self.log.topics,
    {
        &self.log.topics
    }
}

} // verus!
