//! The transaction coordinator: the write path `transact`, the read-only
//! path `call`, and the notification fan-outs.
//!
//! A submitted transaction is validated, evaluated by an EVM, checked for
//! conflicts against the committed state, mined into a single-transaction
//! block, saved, and announced to subscribers. A conflict at check or save
//! time discards the execution and retries with a fresh evaluation, a
//! bounded number of times.

use vstd::prelude::*;

use crate::address::zero_address;
use crate::block::BlockHeader;
use crate::broadcast::{Broadcast, Subscription};
use crate::execution::{Execution, ExecutionAccountChange, ExecutionResult, StorageConflict};
use crate::hash::zero_hash;
use crate::log::{log_mined_eqv, LogMined};
use crate::miner::{drop_ignored, mine_with_one_transaction};
use crate::storage::{
    balance_after, block_changes, bytecode_after, change_conflicts, committed_balance,
    committed_bytecode, committed_nonce, committed_slot, execution_conflicts, nonce_after,
    slot_after, BlockSelector, InMemoryStorage, StoredAccount,
};
use crate::transaction::{CallInput, EvmInput, StoragePointInTime, TransactionInput};
use crate::values::Gas;

verus! {

/// Number of events each notification channel keeps as backlog.
pub const NOTIFIER_CAPACITY: usize = 65535;

/// Number of executions attempted before a transaction is given up on.
pub const TRANSACT_ATTEMPTS: usize = 5;

/// Failure of an EVM worker. A revert or halt is not an error: it is a
/// completed execution whose result says so.
#[derive(Clone, Copy, Debug, PartialEq, Eq, Structural)]
pub enum EvmError {
    /// The worker could not produce an execution at all.
    Crashed,
}

/// A synchronous EVM evaluator. Implementations own their state view and
/// evaluate one input at a time; nothing is assumed of their results.
pub trait Evm {
    /// Evaluates one transaction or call.
    fn execute(&mut self, input: EvmInput) -> Result<Execution, EvmError>;
}

/// Why a transaction was rejected before execution.
#[derive(Clone, Copy, Debug, PartialEq, Eq, Structural)]
pub enum RejectReason {
    /// The recovered signer is the zero address.
    ZeroSigner,
}

/// Outcome of submitting a transaction.
#[derive(Debug)]
pub enum TransactOutcome {
    /// The transaction was mined: the new head and the execution's
    /// essentials.
    Mined {
        /// Header of the newly mined block.
        header: BlockHeader,
        /// How the execution ended.
        result: ExecutionResult,
        /// Return or revert data of the execution.
        output: Vec<u8>,
        /// Gas consumed.
        gas_used: Gas,
    },
    /// The transaction was rejected before execution; nothing changed.
    Rejected(RejectReason),
    /// The execution observed state that has since changed; nothing
    /// changed, and the caller may retry with a fresh execution.
    Conflicted(StorageConflict),
    /// The EVM failed; nothing changed.
    Failed(EvmError),
    /// Every attempt ended in a conflict; nothing changed.
    Exhausted,
}

/// An element kept by the ignored-address filter is an element of the
/// original change list.
proof fn lemma_drop_ignored_element(changes: Seq<ExecutionAccountChange>, i: int)
    requires
        0 <= i < drop_ignored(changes).len(),
    ensures
        exists|j: int| 0 <= j < changes.len() && #[trigger] changes[j] == drop_ignored(changes)[i],
    decreases changes.len(),
{
    reveal(Seq::filter);
    if changes.len() > 0 {
        let rest = changes.drop_last();
        if i < drop_ignored(rest).len() {
            lemma_drop_ignored_element(rest, i);
            let j = choose|j: int|
                0 <= j < rest.len() && #[trigger] rest[j] == drop_ignored(rest)[i];
            assert(changes[j] == rest[j]);
        } else {
            assert(changes[changes.len() - 1] == drop_ignored(changes)[i]);
        }
    }
}

/// Dropping ignored addresses cannot introduce a conflict.
proof fn lemma_drop_ignored_no_new_conflicts(
    accs: Seq<StoredAccount>,
    changes: Seq<ExecutionAccountChange>,
)
    requires
        !execution_conflicts(accs, changes),
    ensures
        !execution_conflicts(accs, drop_ignored(changes)),
{
    let f = drop_ignored(changes);
    assert forall|i: int| 0 <= i < f.len() implies !change_conflicts(accs, #[trigger] f[i]) by {
        lemma_drop_ignored_element(changes, i);
        let j = choose|j: int| 0 <= j < changes.len() && #[trigger] changes[j] == f[i];
        assert(!change_conflicts(accs, changes[j]));
    }
}

/// The coordinator: owns the storage and the notification fan-outs, and
/// drives execute / check-conflicts / mine / save / notify.
#[derive(Debug)]
pub struct EthExecutor {
    /// The committed chain and account state.
    pub storage: InMemoryStorage,
    /// Fan-out of newly mined block heads.
    pub block_notifier: Broadcast<BlockHeader>,
    /// Fan-out of newly mined logs.
    pub log_notifier: Broadcast<LogMined>,
}

impl EthExecutor {
    /// Well-formedness: the storage invariants hold.
    pub open spec fn wf(&self) -> bool {
        self.storage.wf()
    }

    /// A coordinator over the given storage, with fresh notification
    /// channels.
    pub fn new(storage: InMemoryStorage) -> (r: Self)
        requires
            storage.wf(),
        ensures
            r.wf(),
            r.storage == storage,
            r.block_notifier.events@.len() == 0,
            r.log_notifier.events@.len() == 0,
    {
        EthExecutor {
            storage,
            block_notifier: Broadcast::new(NOTIFIER_CAPACITY),
            log_notifier: Broadcast::new(NOTIFIER_CAPACITY),
        }
    }

    /// One mining attempt for an already evaluated transaction: validate,
    /// check conflicts, mine, save, notify. Rejects exactly the zero
    /// signer; reports a conflict exactly when the execution's
    /// observations diverge from the committed state; otherwise mines and
    /// appends exactly one block and announces it.
    pub fn transact_with(
        &mut self,
        transaction: TransactionInput,
        execution: Execution,
        now: u64,
    ) -> (r: TransactOutcome)
        requires
            old(self).wf(),
            old(self).storage.blocks@.len() < u64::MAX,
            old(self).storage.blocks@.len() > 0 ==> old(
                self,
            ).storage.blocks@.last().header.timestamp < u64::MAX,
        ensures
            final(self).wf(),
            r is Rejected <==> transaction.signer@ == zero_address(),
            r is Conflicted <==> (transaction.signer@ != zero_address() && execution_conflicts(
                old(self).storage.accounts@,
                execution.changes@,
            )),
            r is Mined <==> (transaction.signer@ != zero_address() && !execution_conflicts(
                old(self).storage.accounts@,
                execution.changes@,
            )),
            !(r is Failed),
            !(r is Exhausted),
            !(r is Mined) ==> *final(self) == *old(self),
            r matches TransactOutcome::Mined { header, result, output, gas_used } ==> {
                let b = final(self).storage.blocks@.last();
                &&& final(self).storage.blocks@ == old(self).storage.blocks@.push(b)
                &&& header == b.header
                &&& header.number.0 == old(self).storage.blocks@.len()
                &&& (old(self).storage.blocks@.len() == 0 ==> header.parent_hash@ == zero_hash())
                &&& (old(self).storage.blocks@.len() > 0 ==> header.parent_hash@ == old(
                    self,
                ).storage.blocks@.last().header.hash@ && header.timestamp > old(
                    self,
                ).storage.blocks@.last().header.timestamp)
                &&& header.timestamp >= now
                &&& b.transactions@.len() == 1
                &&& b.transactions@[0].input == transaction
                &&& b.transactions@[0].execution.changes@ == drop_ignored(execution.changes@)
                &&& b.transactions@[0].execution.logs@ == execution.logs@
                &&& b.transactions@[0].logs@.len() == execution.logs@.len()
                &&& result == execution.result
                &&& gas_used == execution.gas_used
                &&& output@ == execution.output@
                &&& final(self).block_notifier.events@ == old(
                    self,
                ).block_notifier.events@.push(header)
                &&& final(self).log_notifier.events@.len() == old(
                    self,
                ).log_notifier.events@.len() + b.transactions@[0].logs@.len()
                &&& ({
                    let lo = old(self).log_notifier.events@.len() as int;
                    let hi = final(self).log_notifier.events@.len() as int;
                    forall|i: int|
                        lo <= i < hi ==> log_mined_eqv(
                            #[trigger] final(self).log_notifier.events@[i],
                            b.transactions@[0].logs@[i - lo],
                        )
                })
                &&& (forall|a: Seq<u8>|
                    #[trigger] committed_nonce(final(self).storage.accounts@, a) == nonce_after(
                        block_changes(b),
                        a,
                        committed_nonce(old(self).storage.accounts@, a),
                    ))
                &&& (forall|a: Seq<u8>|
                    #[trigger] committed_balance(final(self).storage.accounts@, a)
                        == balance_after(
                        block_changes(b),
                        a,
                        committed_balance(old(self).storage.accounts@, a),
                    ))
                &&& (forall|a: Seq<u8>|
                    #[trigger] committed_bytecode(final(self).storage.accounts@, a)
                        == bytecode_after(
                        block_changes(b),
                        a,
                        committed_bytecode(old(self).storage.accounts@, a),
                    ))
                &&& (forall|a: Seq<u8>, idx: Seq<u8>|
                    #[trigger] committed_slot(final(self).storage.accounts@, a, idx)
                        == slot_after(
                        block_changes(b),
                        a,
                        idx,
                        committed_slot(old(self).storage.accounts@, a, idx),
                    ))
            },
    {
        // validate: reject the zero signer
        if transaction.signer.is_zero() {
            return TransactOutcome::Rejected(RejectReason::ZeroSigner);
        }

        // the execution's observations must still hold
        match self.storage.check_conflicts(&execution) {
            Some(conflict) => {
                return TransactOutcome::Conflicted(conflict);
            },
            None => {},
        }

        // mine on top of the current head
        let prev_header: Option<BlockHeader> = match self.storage.read_block(
            &BlockSelector::Latest,
        ) {
            Some(b) => Some(b.header),
            None => None,
        };
        let result = execution.result;
        let gas_used = execution.gas_used;
        let output = execution.output.clone();
        proof {
            assert(output@ =~= execution.output@);
        }
        let ghost old_changes = execution.changes@;
        let block = mine_with_one_transaction(
            match &prev_header {
                Some(h) => Some(h),
                None => None,
            },
            transaction,
            execution,
            now,
        );
        let header = block.header;

        // copy the mined logs out for notification
        let tx_logs = &block.transactions[0].logs;
        let mut to_announce: Vec<LogMined> = Vec::new();
        let mut k: usize = 0;
        while k < tx_logs.len()
            invariant
                k <= tx_logs@.len(),
                to_announce@.len() == k,
                forall|i: int|
                    0 <= i < k ==> log_mined_eqv(#[trigger] to_announce@[i], tx_logs@[i]),
            decreases tx_logs@.len() - k,
        {
            to_announce.push(tx_logs[k].clone());
            k = k + 1;
        }
        let ghost blk_logs = block.transactions@[0].logs@;

        // save; the checks above rule out every error
        proof {
            lemma_drop_ignored_no_new_conflicts(self.storage.accounts@, old_changes);
        }
        match self.storage.save_block(block) {
            Ok(()) => {},
            Err(_) => {
                proof {
                    assert(false);
                }
                return TransactOutcome::Exhausted;
            },
        }

        // notify subscribers: the new head, then its logs in order
        self.block_notifier.send(header);
        let ghost pre_logs = self.log_notifier.events@;
        let ghost post_storage = self.storage;
        let ghost post_heads = self.block_notifier;
        let ghost mut sent: int = 0;
        while to_announce.len() > 0
            invariant
                self.storage == post_storage,
                self.block_notifier == post_heads,
                0 <= sent <= blk_logs.len(),
                to_announce@.len() + sent == blk_logs.len(),
                forall|i: int|
                    0 <= i < to_announce@.len() ==> log_mined_eqv(
                        #[trigger] to_announce@[i],
                        blk_logs[sent + i],
                    ),
                self.log_notifier.events@.len() == pre_logs.len() + sent,
                self.log_notifier.events@.subrange(0, pre_logs.len() as int) == pre_logs,
                forall|i: int|
                    pre_logs.len() <= i < pre_logs.len() + sent ==> log_mined_eqv(
                        #[trigger] self.log_notifier.events@[i],
                        blk_logs[i - pre_logs.len()],
                    ),
                self.log_notifier.capacity == old(self).log_notifier.capacity,
            decreases to_announce@.len(),
        {
            let ghost pre = self.log_notifier.events@;
            let l = to_announce.remove(0);
            self.log_notifier.send(l);
            proof {
                sent = sent + 1;
                assert(self.log_notifier.events@.subrange(0, pre_logs.len() as int)
                    =~= pre.subrange(0, pre_logs.len() as int));
            }
        }
        TransactOutcome::Mined { header, result, output, gas_used }
    }

    /// Submits a transaction: evaluates it in the EVM and mines it,
    /// retrying with a fresh evaluation while the committed state moves
    /// under it, a bounded number of times. Rejects exactly the zero
    /// signer; on every outcome but a mined block the state is unchanged.
    pub fn transact<E: Evm>(
        &mut self,
        evm: &mut E,
        transaction: TransactionInput,
        now: u64,
    ) -> (r: TransactOutcome)
        requires
            old(self).wf(),
            old(self).storage.blocks@.len() < u64::MAX,
            old(self).storage.blocks@.len() > 0 ==> old(
                self,
            ).storage.blocks@.last().header.timestamp < u64::MAX,
        ensures
            final(self).wf(),
            r is Rejected <==> transaction.signer@ == zero_address(),
            !(r is Conflicted),
            !(r is Mined) ==> *final(self) == *old(self),
            r matches TransactOutcome::Mined { header, result: _, output: _, gas_used: _ } ==> {
                let b = final(self).storage.blocks@.last();
                &&& final(self).storage.blocks@ == old(self).storage.blocks@.push(b)
                &&& header == b.header
                &&& header.number.0 == old(self).storage.blocks@.len()
                &&& (old(self).storage.blocks@.len() == 0 ==> header.parent_hash@ == zero_hash())
                &&& (old(self).storage.blocks@.len() > 0 ==> header.parent_hash@ == old(
                    self,
                ).storage.blocks@.last().header.hash@)
                &&& b.transactions@.len() == 1
                &&& b.transactions@[0].input.hash == transaction.hash
                &&& b.transactions@[0].input.signer == transaction.signer
                &&& b.transactions@[0].input.nonce == transaction.nonce
                &&& final(self).block_notifier.events@ == old(
                    self,
                ).block_notifier.events@.push(header)
            },
    {
        if transaction.signer.is_zero() {
            return TransactOutcome::Rejected(RejectReason::ZeroSigner);
        }
        let mut attempt: usize = 0;
        while attempt < TRANSACT_ATTEMPTS
            invariant
                self.wf(),
                *self == *old(self),
                transaction.signer@ != zero_address(),
                old(self).storage.blocks@.len() < u64::MAX,
                old(self).storage.blocks@.len() > 0 ==> old(
                    self,
                ).storage.blocks@.last().header.timestamp < u64::MAX,
            decreases TRANSACT_ATTEMPTS - attempt,
        {
            let evm_input = EvmInput::from_transaction(&transaction);
            let execution = match evm.execute(evm_input) {
                Ok(e) => e,
                Err(e) => {
                    return TransactOutcome::Failed(e);
                },
            };
            let retry = transaction.clone();
            match self.transact_with(retry, execution, now) {
                TransactOutcome::Mined { header, result, output, gas_used } => {
                    return TransactOutcome::Mined { header, result, output, gas_used };
                },
                TransactOutcome::Conflicted(_) => {},
                TransactOutcome::Rejected(_) => {
                    proof {
                        assert(false);
                    }
                },
                TransactOutcome::Failed(_) => {
                    proof {
                        assert(false);
                    }
                },
                TransactOutcome::Exhausted => {
                    proof {
                        assert(false);
                    }
                },
            }
            attempt = attempt + 1;
        }
        TransactOutcome::Exhausted
    }

    /// Executes a read-only call through the EVM against the chosen point
    /// in time. The receiver is shared: a call can change neither the
    /// chain nor the notification channels, so any state it proposes is
    /// discarded with the returned execution.
    pub fn call<E: Evm>(
        &self,
        evm: &mut E,
        input: CallInput,
        point_in_time: StoragePointInTime,
    ) -> Result<Execution, EvmError> {
        let evm_input = EvmInput::from_call(&input, point_in_time);
        evm.execute(evm_input)
    }

    /// Subscribes to new block heads.
    pub fn subscribe_to_new_heads(&self) -> (r: Subscription)
        ensures
            r.cursor == self.block_notifier.events@.len(),
    {
        self.block_notifier.subscribe()
    }

    /// Subscribes to newly mined logs.
    pub fn subscribe_to_logs(&self) -> (r: Subscription)
        ensures
            r.cursor == self.log_notifier.events@.len(),
    {
        self.log_notifier.subscribe()
    }
}

} // verus!
