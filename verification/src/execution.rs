//! The output of EVM evaluation: status, gas, logs and proposed state
//! changes, plus the conflict entries that storage reports when those
//! changes no longer agree with the committed state.

use vstd::prelude::*;

use crate::address::Address;
use crate::log::Log;
use crate::values::{Gas, Nonce, SlotIndex, SlotValue, Wei};

verus! {

/// Outcome of evaluating a transaction in the EVM.
#[derive(Clone, Copy, Debug, PartialEq, Eq, Structural)]
pub enum ExecutionResult {
    /// The transaction completed.
    Success,
    /// The transaction reverted; its output is the revert data.
    Reverted,
    /// The evaluation halted before completion.
    Halted,
}

/// A value an execution read and proposes to overwrite: `original` is what
/// the execution observed, `current` is what it wants committed. The value
/// is modified when the two differ.
#[derive(Clone, Copy, Debug)]
pub struct ValueChange<T> {
    /// The value the execution observed in storage.
    pub original: T,
    /// The value the execution proposes.
    pub current: T,
}

impl<T> ValueChange<T> {
    /// Whether the execution proposes a different value than it observed.
    pub open spec fn is_modified(self) -> bool {
        self.original != self.current
    }
}

/// The change an execution proposes for one storage slot.
#[derive(Clone, Copy, Debug)]
pub struct SlotChange {
    /// Index of the slot inside the account's storage.
    pub index: SlotIndex,
    /// Observed and proposed value of the slot.
    pub change: ValueChange<SlotValue>,
}

/// Every change an execution proposes for one account.
#[derive(Clone, Debug)]
pub struct ExecutionAccountChange {
    /// Address of the account.
    pub address: Address,
    /// Observed and proposed nonce.
    pub nonce: ValueChange<Nonce>,
    /// Observed and proposed balance.
    pub balance: ValueChange<Wei>,
    /// Observed and proposed bytecode.
    pub bytecode: ValueChange<Option<Vec<u8>>>,
    /// Observed and proposed slot values, one entry per slot index.
    pub slots: Vec<SlotChange>,
}

/// The result of evaluating one transaction or call in the EVM. Immutable
/// once produced.
#[derive(Clone, Debug)]
pub struct Execution {
    /// How the evaluation ended.
    pub result: ExecutionResult,
    /// Return or revert data.
    pub output: Vec<u8>,
    /// Gas consumed by the evaluation.
    pub gas_used: Gas,
    /// Logs emitted during the evaluation, in emission order.
    pub logs: Vec<Log>,
    /// State changes the execution proposes, keyed by account address.
    pub changes: Vec<ExecutionAccountChange>,
    /// Block timestamp the evaluation assumed.
    pub block_timestamp_in_use: u64,
}

/// The field of an account on which an execution and the committed state
/// diverge.
#[derive(Clone, Copy, Debug)]
pub enum ConflictKind {
    /// The account's nonce diverged.
    Nonce,
    /// The account's balance diverged.
    Balance,
    /// The account's bytecode diverged.
    Bytecode,
    /// The value of the slot with this index diverged.
    Slot(SlotIndex),
}

/// One divergence between what an execution observed and what the
/// committed state holds.
#[derive(Clone, Copy, Debug)]
pub struct StorageConflictEntry {
    /// Address of the diverging account.
    pub address: Address,
    /// Which field of the account diverges.
    pub kind: ConflictKind,
}

/// The divergences found between an execution's observations and the
/// committed state; re-execution is needed when any exist.
#[derive(Clone, Debug)]
pub struct StorageConflict {
    /// The diverging fields found.
    pub entries: Vec<StorageConflictEntry>,
}

/// Whether a change set references the address: used to state which
/// accounts a block touches.
pub open spec fn changes_touch(changes: Seq<ExecutionAccountChange>, addr: Seq<u8>) -> bool {
    exists|i: int| 0 <= i < changes.len() && (#[trigger] changes[i]).address@ == addr
}

} // verus!
