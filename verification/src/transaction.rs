//! Transactions as submitted, inputs handed to the EVM, and transactions
//! as mined into a block.

use vstd::prelude::*;

use crate::address::Address;
use crate::execution::Execution;
use crate::log::LogMined;
use crate::values::{BlockNumber, Gas, Index, Nonce, Wei};

verus! {

/// The wire form of a submitted transaction.
#[derive(Debug)]
pub struct TransactionInput {
    /// Hash of the signed transaction.
    pub hash: crate::hash::Hash,
    /// Nonce declared by the sender.
    pub nonce: Nonce,
    /// Sender as declared in the transaction.
    pub from: Address,
    /// Sender as recovered from the signature.
    pub signer: Address,
    /// Recipient; absent for a contract deployment.
    pub to: Option<Address>,
    /// Call data.
    pub input: Vec<u8>,
    /// Gas limit.
    pub gas: Gas,
    /// Transferred amount.
    pub value: Wei,
    /// Chain the transaction is meant for.
    pub chain_id: u64,
    /// Recovery id of the signature.
    pub v: u64,
    /// First half of the signature.
    pub r: [u8; 32],
    /// Second half of the signature.
    pub s: [u8; 32],
}

impl Clone for TransactionInput {
    fn clone(&self) -> (r: Self)
        ensures
            r.hash == self.hash,
            r.nonce == self.nonce,
            r.from == self.from,
            r.signer == self.signer,
            r.to == self.to,
            r.input@ == self.input@,
            r.gas == self.gas,
            r.value == self.value,
            r.chain_id == self.chain_id,
            r.v == self.v,
            r.r == self.r,
            r.s == self.s,
    {
        let input = self.input.clone();
        proof {
            assert(input@ =~= self.input@);
        }
        TransactionInput {
            hash: self.hash,
            nonce: self.nonce,
            from: self.from,
            signer: self.signer,
            to: self.to,
            input,
            gas: self.gas,
            value: self.value,
            chain_id: self.chain_id,
            v: self.v,
            r: self.r,
            s: self.s,
        }
    }
}

/// The input of a read-only call.
#[derive(Clone, Debug)]
pub struct CallInput {
    /// Caller address.
    pub from: Address,
    /// Called contract; absent to simulate a deployment.
    pub to: Option<Address>,
    /// Call data.
    pub data: Vec<u8>,
}

/// Which committed state an EVM evaluation reads: the latest, or the state
/// as of a past block.
#[derive(Clone, Copy, Debug, PartialEq, Eq, Structural)]
pub enum StoragePointInTime {
    /// The latest committed state.
    Present,
    /// The state as of the given past block number.
    Past(BlockNumber),
}

/// A unit of work handed to an EVM worker.
#[derive(Clone, Debug)]
pub enum EvmInput {
    /// Evaluate a submitted transaction against the present state.
    Transact {
        /// Sender as declared.
        from: Address,
        /// Sender as recovered from the signature.
        signer: Address,
        /// Recipient; absent for a deployment.
        to: Option<Address>,
        /// Call data.
        input: Vec<u8>,
        /// Transferred amount.
        value: Wei,
        /// Gas limit.
        gas: Gas,
        /// Declared nonce.
        nonce: Nonce,
        /// State the evaluation reads; always the present for a transaction.
        point_in_time: StoragePointInTime,
    },
    /// Evaluate a read-only call against the chosen state.
    Call {
        /// Caller address.
        from: Address,
        /// Called contract; absent to simulate a deployment.
        to: Option<Address>,
        /// Call data.
        input: Vec<u8>,
        /// State the evaluation reads.
        point_in_time: StoragePointInTime,
    },
}

impl EvmInput {
    /// Builds the EVM work unit of a submitted transaction; it always
    /// reads the present state.
    pub fn from_transaction(t: &TransactionInput) -> (r: EvmInput)
        ensures
            r matches EvmInput::Transact {
                from,
                signer,
                to,
                input,
                value,
                gas,
                nonce,
                point_in_time,
            } && from == t.from && signer == t.signer && to == t.to && input@ == t.input@
                && value == t.value && gas == t.gas && nonce == t.nonce && point_in_time
                == StoragePointInTime::Present,
    {
        EvmInput::Transact {
            from: t.from,
            signer: t.signer,
            to: t.to,
            input: t.input.clone(),
            value: t.value,
            gas: t.gas,
            nonce: t.nonce,
            point_in_time: StoragePointInTime::Present,
        }
    }

    /// Builds the EVM work unit of a read-only call against the chosen
    /// state.
    pub fn from_call(c: &CallInput, point_in_time: StoragePointInTime) -> (r: EvmInput)
        ensures
            r matches EvmInput::Call { from, to, input, point_in_time: pit } && from == c.from
                && to == c.to && input@ == c.data@ && pit == point_in_time,
    {
        EvmInput::Call {
            from: c.from,
            to: c.to,
            input: c.data.clone(),
            point_in_time,
        }
    }
}

/// A transaction mined into a block, with its execution and its logs.
#[derive(Clone, Debug)]
pub struct TransactionMined {
    /// The transaction as submitted.
    pub input: TransactionInput,
    /// The execution mined with it; its changes carry no ignored address.
    pub execution: Execution,
    /// The execution's logs with their mined coordinates.
    pub logs: Vec<LogMined>,
    /// Position of the transaction inside its block.
    pub transaction_index: Index,
}

} // verus!
