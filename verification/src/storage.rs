//! In-memory storage of the chain: committed accounts, mined blocks, and
//! per-block snapshots for point-in-time reads.
//!
//! The store detects read/write conflicts between an execution's observed
//! state and the committed state, and appends blocks atomically: a block is
//! saved only when its number follows the head, its parent hash is the
//! head's hash, and none of its execution's observations diverge from the
//! committed state.

use vstd::prelude::*;

use crate::account::Account;
use crate::address::{is_ignored_address, Address};
use crate::block::{block_logs, block_wf, Block};
use crate::execution::{
    ConflictKind, Execution, ExecutionAccountChange, StorageConflict, StorageConflictEntry,
};
use crate::hash::zero_hash;
use crate::log::{log_mined_eqv, LogMined};
use crate::log_filter::{filter_matches, LogFilter};
use crate::transaction::{StoragePointInTime, TransactionMined};
use crate::values::{opt_bytes_eq, opt_bytes_view, zero_word, Nonce, Slot, SlotIndex, SlotValue, Wei};

verus! {

/// An account as the store holds it, with its storage slots.
#[derive(Debug)]
pub struct StoredAccount {
    /// Address of the account.
    pub address: Address,
    /// Committed nonce.
    pub nonce: Nonce,
    /// Committed balance.
    pub balance: Wei,
    /// Committed bytecode, when the account is a contract.
    pub bytecode: Option<Vec<u8>>,
    /// Committed storage slots, one entry per index.
    pub slots: Vec<Slot>,
}

/// The first slot with the given index, scanning in order.
pub open spec fn lookup_slot(slots: Seq<Slot>, idx: Seq<u8>) -> Option<Slot>
    decreases slots.len(),
{
    if slots.len() == 0 {
        None
    } else if slots[0].index@ == idx {
        Some(slots[0])
    } else {
        lookup_slot(slots.drop_first(), idx)
    }
}

/// Value of the slot with the given index: the zero word when unset.
pub open spec fn slot_value_in(slots: Seq<Slot>, idx: Seq<u8>) -> Seq<u8> {
    match lookup_slot(slots, idx) {
        Some(s) => s.value@,
        None => zero_word(),
    }
}

/// The first account with the given address, scanning in order.
pub open spec fn lookup_account(s: Seq<StoredAccount>, a: Seq<u8>) -> Option<StoredAccount>
    decreases s.len(),
{
    if s.len() == 0 {
        None
    } else if s[0].address@ == a {
        Some(s[0])
    } else {
        lookup_account(s.drop_first(), a)
    }
}

/// Whether the store holds an account at the address.
pub open spec fn has_account(s: Seq<StoredAccount>, a: Seq<u8>) -> bool {
    lookup_account(s, a) is Some
}

/// Committed nonce of the address: zero when absent.
pub open spec fn committed_nonce(s: Seq<StoredAccount>, a: Seq<u8>) -> Nonce {
    match lookup_account(s, a) {
        Some(acc) => acc.nonce,
        None => Nonce(0),
    }
}

/// Committed balance of the address: zero when absent.
pub open spec fn committed_balance(s: Seq<StoredAccount>, a: Seq<u8>) -> Wei {
    match lookup_account(s, a) {
        Some(acc) => acc.balance,
        None => Wei(0),
    }
}

/// Committed bytecode of the address: none when absent.
pub open spec fn committed_bytecode(s: Seq<StoredAccount>, a: Seq<u8>) -> Option<Seq<u8>> {
    match lookup_account(s, a) {
        Some(acc) => opt_bytes_view(acc.bytecode),
        None => None,
    }
}

/// Committed value of a slot of the address: the zero word when unset.
pub open spec fn committed_slot(s: Seq<StoredAccount>, a: Seq<u8>, idx: Seq<u8>) -> Seq<u8> {
    match lookup_account(s, a) {
        Some(acc) => slot_value_in(acc.slots@, idx),
        None => zero_word(),
    }
}

/// Slot indexes are unique.
pub open spec fn wf_slots(slots: Seq<Slot>) -> bool {
    forall|i: int, j: int|
        0 <= i < j < slots.len() ==> (#[trigger] slots[i]).index@ != (#[trigger] slots[j]).index@
}

/// Account addresses are unique, no ignored address is stored, and each
/// account's slots are well-formed.
pub open spec fn wf_accounts(s: Seq<StoredAccount>) -> bool {
    &&& forall|i: int, j: int|
        0 <= i < j < s.len() ==> (#[trigger] s[i]).address@ != (#[trigger] s[j]).address@
    &&& forall|i: int| 0 <= i < s.len() ==> !is_ignored_address((#[trigger] s[i]).address@)
    &&& forall|i: int| 0 <= i < s.len() ==> wf_slots((#[trigger] s[i]).slots@)
}

/// The chain structure: contiguous numbers from zero, parent hashes
/// linking each block to the one before it, strictly increasing
/// timestamps, and well-formed single-transaction blocks.
pub open spec fn wf_chain(blocks: Seq<Block>) -> bool {
    &&& forall|n: int| 0 <= n < blocks.len() ==> (#[trigger] blocks[n]).header.number.0 == n
    &&& forall|n: int|
        1 <= n < blocks.len() ==> (#[trigger] blocks[n]).header.parent_hash@
            == blocks[n - 1].header.hash@
    &&& blocks.len() > 0 ==> blocks[0].header.parent_hash@ == zero_hash()
    &&& forall|n: int|
        1 <= n < blocks.len() ==> (#[trigger] blocks[n]).header.timestamp
            > blocks[n - 1].header.timestamp
    &&& forall|n: int| 0 <= n < blocks.len() ==> block_wf(#[trigger] blocks[n])
}

/// Skipping a prefix without the address leaves the lookup unchanged.
proof fn lemma_lookup_account_skip(s: Seq<StoredAccount>, a: Seq<u8>, i: int)
    requires
        0 <= i <= s.len(),
        forall|j: int| 0 <= j < i ==> (#[trigger] s[j]).address@ != a,
    ensures
        lookup_account(s, a) == lookup_account(s.skip(i), a),
    decreases i,
{
    if i > 0 {
        lemma_lookup_account_skip(s.drop_first(), a, i - 1);
        assert(s.drop_first().skip(i - 1) =~= s.skip(i));
    } else {
        assert(s.skip(0) =~= s);
    }
}

/// Updating the first occurrence of an address changes the lookup there
/// and nowhere else.
proof fn lemma_lookup_account_update(s: Seq<StoredAccount>, i: int, acc: StoredAccount, b: Seq<u8>)
    requires
        0 <= i < s.len(),
        acc.address@ == s[i].address@,
        forall|j: int| 0 <= j < i ==> (#[trigger] s[j]).address@ != acc.address@,
    ensures
        lookup_account(s.update(i, acc), b) == if b == acc.address@ {
            Some(acc)
        } else {
            lookup_account(s, b)
        },
    decreases i,
{
    let s2 = s.update(i, acc);
    if i == 0 {
        assert(s2[0] == acc);
        if b != acc.address@ {
            assert(s2.drop_first() =~= s.drop_first());
        }
    } else {
        assert(s2[0] == s[0]);
        assert(s2.drop_first() =~= s.drop_first().update(i - 1, acc));
        lemma_lookup_account_update(s.drop_first(), i - 1, acc, b);
    }
}

/// Appending an account changes the lookup only for its address, and only
/// when the address was absent.
proof fn lemma_lookup_account_push(s: Seq<StoredAccount>, acc: StoredAccount, b: Seq<u8>)
    ensures
        lookup_account(s.push(acc), b) == if lookup_account(s, b) is Some {
            lookup_account(s, b)
        } else if acc.address@ == b {
            Some(acc)
        } else {
            None::<StoredAccount>
        },
    decreases s.len(),
{
    let s2 = s.push(acc);
    if s.len() == 0 {
        assert(s2[0] == acc);
        assert(s2.drop_first() =~= Seq::<StoredAccount>::empty());
    } else {
        assert(s2[0] == s[0]);
        assert(s2.drop_first() =~= s.drop_first().push(acc));
        lemma_lookup_account_push(s.drop_first(), acc, b);
    }
}

/// Skipping a prefix without the index leaves the slot lookup unchanged.
proof fn lemma_lookup_slot_skip(slots: Seq<Slot>, idx: Seq<u8>, i: int)
    requires
        0 <= i <= slots.len(),
        forall|j: int| 0 <= j < i ==> (#[trigger] slots[j]).index@ != idx,
    ensures
        lookup_slot(slots, idx) == lookup_slot(slots.skip(i), idx),
    decreases i,
{
    if i > 0 {
        lemma_lookup_slot_skip(slots.drop_first(), idx, i - 1);
        assert(slots.drop_first().skip(i - 1) =~= slots.skip(i));
    } else {
        assert(slots.skip(0) =~= slots);
    }
}

/// Updating the first occurrence of a slot index changes the lookup there
/// and nowhere else.
proof fn lemma_lookup_slot_update(slots: Seq<Slot>, i: int, sl: Slot, idx: Seq<u8>)
    requires
        0 <= i < slots.len(),
        sl.index@ == slots[i].index@,
        forall|j: int| 0 <= j < i ==> (#[trigger] slots[j]).index@ != sl.index@,
    ensures
        lookup_slot(slots.update(i, sl), idx) == if idx == sl.index@ {
            Some(sl)
        } else {
            lookup_slot(slots, idx)
        },
    decreases i,
{
    let s2 = slots.update(i, sl);
    if i == 0 {
        assert(s2[0] == sl);
        if idx != sl.index@ {
            assert(s2.drop_first() =~= slots.drop_first());
        }
    } else {
        assert(s2[0] == slots[0]);
        assert(s2.drop_first() =~= slots.drop_first().update(i - 1, sl));
        lemma_lookup_slot_update(slots.drop_first(), i - 1, sl, idx);
    }
}

/// Appending a slot changes the lookup only for its index, and only when
/// the index was unset.
proof fn lemma_lookup_slot_push(slots: Seq<Slot>, sl: Slot, idx: Seq<u8>)
    ensures
        lookup_slot(slots.push(sl), idx) == if lookup_slot(slots, idx) is Some {
            lookup_slot(slots, idx)
        } else if sl.index@ == idx {
            Some(sl)
        } else {
            None::<Slot>
        },
    decreases slots.len(),
{
    let s2 = slots.push(sl);
    if slots.len() == 0 {
        assert(s2[0] == sl);
        assert(s2.drop_first() =~= Seq::<Slot>::empty());
    } else {
        assert(s2[0] == slots[0]);
        assert(s2.drop_first() =~= slots.drop_first().push(sl));
        lemma_lookup_slot_push(slots.drop_first(), sl, idx);
    }
}

/// Finds the position of the account with the address.
fn find_account(accounts: &Vec<StoredAccount>, address: &Address) -> (r: Option<usize>)
    ensures
        match r {
            Some(i) => i < accounts@.len() && accounts@[i as int].address@ == address@
                && lookup_account(accounts@, address@) == Some(accounts@[i as int]) && forall|j:
                int| 0 <= j < i ==> (#[trigger] accounts@[j]).address@ != address@,
            None => lookup_account(accounts@, address@) is None && forall|j: int|
                0 <= j < accounts@.len() ==> (#[trigger] accounts@[j]).address@ != address@,
        },
{
    let n = accounts.len();
    let mut i: usize = 0;
    while i < n
        invariant
            i <= n,
            n == accounts@.len(),
            forall|j: int| 0 <= j < i ==> (#[trigger] accounts@[j]).address@ != address@,
        decreases n - i,
    {
        if accounts[i].address == *address {
            proof {
                lemma_lookup_account_skip(accounts@, address@, i as int);
                assert(accounts@.skip(i as int)[0] == accounts@[i as int]);
            }
            return Some(i);
        }
        i = i + 1;
    }
    proof {
        lemma_lookup_account_skip(accounts@, address@, n as int);
        assert(accounts@.skip(n as int) =~= Seq::<StoredAccount>::empty());
    }
    None
}

/// Finds the position of the slot with the index.
fn find_slot(slots: &Vec<Slot>, index: &SlotIndex) -> (r: Option<usize>)
    ensures
        match r {
            Some(i) => i < slots@.len() && slots@[i as int].index@ == index@ && lookup_slot(
                slots@,
                index@,
            ) == Some(slots@[i as int]) && forall|j: int|
                0 <= j < i ==> (#[trigger] slots@[j]).index@ != index@,
            None => lookup_slot(slots@, index@) is None && forall|j: int|
                0 <= j < slots@.len() ==> (#[trigger] slots@[j]).index@ != index@,
        },
{
    let n = slots.len();
    let mut i: usize = 0;
    while i < n
        invariant
            i <= n,
            n == slots@.len(),
            forall|j: int| 0 <= j < i ==> (#[trigger] slots@[j]).index@ != index@,
        decreases n - i,
    {
        if slots[i].index == *index {
            proof {
                lemma_lookup_slot_skip(slots@, index@, i as int);
                assert(slots@.skip(i as int)[0] == slots@[i as int]);
            }
            return Some(i);
        }
        i = i + 1;
    }
    proof {
        lemma_lookup_slot_skip(slots@, index@, n as int);
        assert(slots@.skip(n as int) =~= Seq::<Slot>::empty());
    }
    None
}

/// How a caller names the block it wants to read.
#[derive(Clone, Copy, Debug)]
pub enum BlockSelector {
    /// The block at the head of the chain.
    Latest,
    /// The block with the given number.
    Number(crate::values::BlockNumber),
    /// The block with the given hash.
    Hash(crate::hash::Hash),
}

/// The logs of a chain of blocks, block by block, in order.
pub open spec fn chain_logs(blocks: Seq<Block>) -> Seq<LogMined>
    decreases blocks.len(),
{
    if blocks.len() == 0 {
        Seq::empty()
    } else {
        chain_logs(blocks.drop_last()) + block_logs(blocks.last())
    }
}

/// The logs of a sequence that match a filter, kept in order.
pub open spec fn matching_of(logs: Seq<LogMined>, f: LogFilter) -> Seq<LogMined>
    decreases logs.len(),
{
    if logs.len() == 0 {
        Seq::empty()
    } else {
        let rest = matching_of(logs.drop_last(), f);
        if filter_matches(f, logs.last()) {
            rest.push(logs.last())
        } else {
            rest
        }
    }
}

/// The persisted logs of a chain that match a filter, in
/// (block number, transaction index, log index) order.
pub open spec fn matching_logs(blocks: Seq<Block>, f: LogFilter) -> Seq<LogMined> {
    matching_of(chain_logs(blocks), f)
}

/// Matching distributes over concatenation of log sequences.
proof fn lemma_matching_of_add(s: Seq<LogMined>, t: Seq<LogMined>, f: LogFilter)
    ensures
        matching_of(s + t, f) == matching_of(s, f) + matching_of(t, f),
    decreases t.len(),
{
    if t.len() == 0 {
        assert(s + t =~= s);
        assert(matching_of(t, f) =~= Seq::<LogMined>::empty());
        assert(matching_of(s, f) + matching_of(t, f) =~= matching_of(s, f));
    } else {
        lemma_matching_of_add(s, t.drop_last(), f);
        assert((s + t).drop_last() =~= s + t.drop_last());
        assert((s + t).last() == t.last());
        assert(matching_of(s + t, f) =~= matching_of(s, f) + matching_of(t, f));
    }
}

/// Error of a storage write.
#[derive(Clone, Debug)]
pub enum StorageError {
    /// The block's execution observed state that has since changed.
    Conflict(StorageConflict),
    /// The block's number does not follow the head.
    NumberMismatch,
    /// The block does not link to the head: wrong parent hash or
    /// non-increasing timestamp.
    ParentMismatch,
}

/// The changes a block carries: those of its single transaction.
pub open spec fn block_changes(b: Block) -> Seq<ExecutionAccountChange> {
    if b.transactions@.len() == 1 {
        b.transactions@[0].execution.changes@
    } else {
        Seq::empty()
    }
}

/// The value the last change entry for the slot proposes, when one exists.
pub open spec fn slots_set(slots: Seq<crate::execution::SlotChange>, idx: Seq<u8>) -> Option<
    Seq<u8>,
>
    decreases slots.len(),
{
    if slots.len() == 0 {
        None
    } else if slots.last().index@ == idx {
        Some(slots.last().change.current@)
    } else {
        slots_set(slots.drop_last(), idx)
    }
}

/// The nonce of the address after a change list is applied in order.
pub open spec fn nonce_after(changes: Seq<ExecutionAccountChange>, a: Seq<u8>, base: Nonce) -> Nonce
    decreases changes.len(),
{
    if changes.len() == 0 {
        base
    } else if changes.last().address@ == a {
        changes.last().nonce.current
    } else {
        nonce_after(changes.drop_last(), a, base)
    }
}

/// The balance of the address after a change list is applied in order.
pub open spec fn balance_after(changes: Seq<ExecutionAccountChange>, a: Seq<u8>, base: Wei) -> Wei
    decreases changes.len(),
{
    if changes.len() == 0 {
        base
    } else if changes.last().address@ == a {
        changes.last().balance.current
    } else {
        balance_after(changes.drop_last(), a, base)
    }
}

/// The bytecode of the address after a change list is applied in order.
pub open spec fn bytecode_after(
    changes: Seq<ExecutionAccountChange>,
    a: Seq<u8>,
    base: Option<Seq<u8>>,
) -> Option<Seq<u8>>
    decreases changes.len(),
{
    if changes.len() == 0 {
        base
    } else if changes.last().address@ == a {
        opt_bytes_view(changes.last().bytecode.current)
    } else {
        bytecode_after(changes.drop_last(), a, base)
    }
}

/// The value of the slot of the address after a change list is applied in
/// order: a change of the address without the slot leaves it as it was.
pub open spec fn slot_after(
    changes: Seq<ExecutionAccountChange>,
    a: Seq<u8>,
    idx: Seq<u8>,
    base: Seq<u8>,
) -> Seq<u8>
    decreases changes.len(),
{
    if changes.len() == 0 {
        base
    } else {
        let prev = slot_after(changes.drop_last(), a, idx, base);
        if changes.last().address@ == a {
            match slots_set(changes.last().slots@, idx) {
                Some(v) => v,
                None => prev,
            }
        } else {
            prev
        }
    }
}

/// Whether two stored accounts hold the same content.
pub open spec fn account_eqv(a: StoredAccount, b: StoredAccount) -> bool {
    a.address@ == b.address@ && a.nonce == b.nonce && a.balance == b.balance && opt_bytes_view(
        a.bytecode,
    ) == opt_bytes_view(b.bytecode) && a.slots@ == b.slots@
}

impl Clone for StoredAccount {
    fn clone(&self) -> (r: Self)
        ensures
            account_eqv(r, *self),
    {
        let bytecode: Option<Vec<u8>> = match &self.bytecode {
            Some(code) => {
                let c = code.clone();
                proof {
                    assert(c@ =~= code@);
                }
                Some(c)
            },
            None => None,
        };
        let slots = self.slots.clone();
        proof {
            assert(slots@ =~= self.slots@);
        }
        StoredAccount {
            address: self.address,
            nonce: self.nonce,
            balance: self.balance,
            bytecode,
            slots,
        }
    }
}

/// Content-equal account lists give the same committed values everywhere.
proof fn lemma_lookup_account_eqv(s1: Seq<StoredAccount>, s2: Seq<StoredAccount>, b: Seq<u8>)
    requires
        s1.len() == s2.len(),
        forall|i: int| 0 <= i < s1.len() ==> account_eqv(#[trigger] s1[i], s2[i]),
    ensures
        has_account(s1, b) == has_account(s2, b),
        committed_nonce(s1, b) == committed_nonce(s2, b),
        committed_balance(s1, b) == committed_balance(s2, b),
        committed_bytecode(s1, b) == committed_bytecode(s2, b),
        forall|idx: Seq<u8>| committed_slot(s1, b, idx) == committed_slot(s2, b, idx),
    decreases s1.len(),
{
    if s1.len() > 0 {
        assert(account_eqv(s1[0], s2[0]));
        if s1[0].address@ == b {
            assert forall|idx: Seq<u8>| committed_slot(s1, b, idx) == committed_slot(
                s2,
                b,
                idx,
            ) by {
                assert(lookup_account(s1, b) == Some(s1[0]));
                assert(lookup_account(s2, b) == Some(s2[0]));
                assert(s1[0].slots@ == s2[0].slots@);
            }
        }
        if s1[0].address@ != b {
            assert forall|i: int| 0 <= i < s1.drop_first().len() implies account_eqv(
                #[trigger] s1.drop_first()[i],
                s2.drop_first()[i],
            ) by {
                assert(account_eqv(s1[i + 1], s2[i + 1]));
            }
            lemma_lookup_account_eqv(s1.drop_first(), s2.drop_first(), b);
            assert forall|idx: Seq<u8>| committed_slot(s1, b, idx) == committed_slot(
                s2,
                b,
                idx,
            ) by {
                assert(committed_slot(s1.drop_first(), b, idx) == committed_slot(
                    s2.drop_first(),
                    b,
                    idx,
                ));
                assert(lookup_account(s1, b) == lookup_account(s1.drop_first(), b));
                assert(lookup_account(s2, b) == lookup_account(s2.drop_first(), b));
            }
        }
    }
}

/// Copies an account list, content for content.
fn clone_accounts(v: &Vec<StoredAccount>) -> (r: Vec<StoredAccount>)
    ensures
        r@.len() == v@.len(),
        forall|i: int| 0 <= i < v@.len() ==> account_eqv(#[trigger] r@[i], v@[i]),
{
    let mut r: Vec<StoredAccount> = Vec::new();
    let mut i: usize = 0;
    while i < v.len()
        invariant
            i <= v@.len(),
            r@.len() == i,
            forall|j: int| 0 <= j < i ==> account_eqv(#[trigger] r@[j], v@[j]),
        decreases v@.len() - i,
    {
        r.push(v[i].clone());
        i = i + 1;
    }
    r
}

/// Applies one account change to the stored account it addresses: the
/// nonce, balance and bytecode become the proposed values, and every slot
/// the change lists is set, the last write winning.
fn apply_change_to_account(acc: StoredAccount, c: &ExecutionAccountChange) -> (r: StoredAccount)
    requires
        wf_slots(acc.slots@),
    ensures
        r.address == acc.address,
        r.nonce == c.nonce.current,
        r.balance == c.balance.current,
        opt_bytes_view(r.bytecode) == opt_bytes_view(c.bytecode.current),
        wf_slots(r.slots@),
        forall|idx: Seq<u8>|
            slot_value_in(r.slots@, idx) == (match slots_set(c.slots@, idx) {
                Some(v) => v,
                None => slot_value_in(acc.slots@, idx),
            }),
{
    let address = acc.address;
    let mut slots = acc.slots;
    let bytecode: Option<Vec<u8>> = match &c.bytecode.current {
        Some(code) => {
            let v = code.clone();
            proof {
                assert(v@ =~= code@);
            }
            Some(v)
        },
        None => None,
    };
    let m = c.slots.len();
    let mut k: usize = 0;
    while k < m
        invariant
            k <= m,
            m == c.slots@.len(),
            wf_slots(slots@),
            forall|idx: Seq<u8>|
                slot_value_in(slots@, idx) == (match slots_set(c.slots@.take(k as int), idx) {
                    Some(v) => v,
                    None => slot_value_in(acc.slots@, idx),
                }),
        decreases m - k,
    {
        let sc = c.slots[k];
        let newslot = Slot { index: sc.index, value: sc.change.current };
        let ghost pre = slots@;
        match find_slot(&slots, &sc.index) {
            Some(si) => {
                slots[si] = newslot;
                proof {
                    assert forall|idx: Seq<u8>| #[trigger] lookup_slot(slots@, idx) == (if idx
                        == sc.index@ {
                        Some(newslot)
                    } else {
                        lookup_slot(pre, idx)
                    }) by {
                        lemma_lookup_slot_update(pre, si as int, newslot, idx);
                    }
                    assert forall|i: int, j: int|
                        0 <= i < j < slots@.len() implies (#[trigger] slots@[i]).index@
                        != (#[trigger] slots@[j]).index@ by {
                        assert(slots@[i].index@ == pre[i].index@);
                        assert(slots@[j].index@ == pre[j].index@);
                    }
                }
            },
            None => {
                slots.push(newslot);
                proof {
                    assert forall|idx: Seq<u8>| #[trigger] lookup_slot(slots@, idx) == (if idx
                        == sc.index@ {
                        Some(newslot)
                    } else {
                        lookup_slot(pre, idx)
                    }) by {
                        lemma_lookup_slot_push(pre, newslot, idx);
                        if idx == sc.index@ {
                            assert(lookup_slot(pre, idx) is None);
                        }
                    }
                }
            },
        }
        proof {
            assert(c.slots@.take(k as int + 1).drop_last() =~= c.slots@.take(k as int));
            assert(c.slots@.take(k as int + 1).last() == sc);
            assert forall|idx: Seq<u8>|
                slot_value_in(slots@, idx) == (match slots_set(
                    c.slots@.take(k as int + 1),
                    idx,
                ) {
                    Some(v) => v,
                    None => slot_value_in(acc.slots@, idx),
                }) by {
                if idx == sc.index@ {
                    assert(lookup_slot(slots@, idx) == Some(newslot));
                    assert(slots_set(c.slots@.take(k as int + 1), idx) == Some(
                        sc.change.current@,
                    ));
                } else {
                    assert(lookup_slot(slots@, idx) == lookup_slot(pre, idx));
                    assert(slot_value_in(pre, idx) == (match slots_set(
                        c.slots@.take(k as int),
                        idx,
                    ) {
                        Some(v) => v,
                        None => slot_value_in(acc.slots@, idx),
                    }));
                    assert(slots_set(c.slots@.take(k as int + 1), idx) == slots_set(
                        c.slots@.take(k as int),
                        idx,
                    ));
                }
            }
        }
        k = k + 1;
    }
    proof {
        assert(c.slots@.take(m as int) =~= c.slots@);
    }
    StoredAccount { address, nonce: c.nonce.current, balance: c.balance.current, bytecode, slots }
}

/// Applies one account change to the committed accounts, creating the
/// account when absent.
fn apply_change(accounts: &mut Vec<StoredAccount>, c: &ExecutionAccountChange)
    requires
        wf_accounts(old(accounts)@),
        !is_ignored_address(c.address@),
    ensures
        wf_accounts(final(accounts)@),
        forall|b: Seq<u8>|
            #[trigger] committed_nonce(final(accounts)@, b) == (if b == c.address@ {
                c.nonce.current
            } else {
                committed_nonce(old(accounts)@, b)
            }),
        forall|b: Seq<u8>|
            #[trigger] committed_balance(final(accounts)@, b) == (if b == c.address@ {
                c.balance.current
            } else {
                committed_balance(old(accounts)@, b)
            }),
        forall|b: Seq<u8>|
            #[trigger] committed_bytecode(final(accounts)@, b) == (if b == c.address@ {
                opt_bytes_view(c.bytecode.current)
            } else {
                committed_bytecode(old(accounts)@, b)
            }),
        forall|b: Seq<u8>, idx: Seq<u8>|
            #[trigger] committed_slot(final(accounts)@, b, idx) == (if b == c.address@ {
                match slots_set(c.slots@, idx) {
                    Some(v) => v,
                    None => committed_slot(old(accounts)@, b, idx),
                }
            } else {
                committed_slot(old(accounts)@, b, idx)
            }),
{
    let ghost pre = accounts@;
    match find_account(accounts, &c.address) {
        Some(i) => {
            let acc = accounts[i].clone();
            proof {
                assert(account_eqv(acc, pre[i as int]));
            }
            let newacc = apply_change_to_account(acc, c);
            accounts[i] = newacc;
            proof {
                assert forall|b: Seq<u8>| #[trigger] lookup_account(accounts@, b) == (if b
                    == c.address@ {
                    Some(newacc)
                } else {
                    lookup_account(pre, b)
                }) by {
                    lemma_lookup_account_update(pre, i as int, newacc, b);
                }
                assert forall|i2: int, j2: int|
                    0 <= i2 < j2 < accounts@.len() implies (#[trigger] accounts@[i2]).address@
                    != (#[trigger] accounts@[j2]).address@ by {
                    assert(accounts@[i2].address@ == pre[i2].address@);
                    assert(accounts@[j2].address@ == pre[j2].address@);
                }
            }
        },
        None => {
            let base = StoredAccount {
                address: c.address,
                nonce: Nonce(0),
                balance: Wei(0),
                bytecode: None,
                slots: Vec::new(),
            };
            proof {
                assert(wf_slots(base.slots@));
            }
            let newacc = apply_change_to_account(base, c);
            accounts.push(newacc);
            proof {
                assert forall|b: Seq<u8>| #[trigger] lookup_account(accounts@, b) == (if b
                    == c.address@ {
                    Some(newacc)
                } else {
                    lookup_account(pre, b)
                }) by {
                    lemma_lookup_account_push(pre, newacc, b);
                    if b == c.address@ {
                        assert(lookup_account(pre, b) is None);
                    }
                }
            }
        },
    }
}

/// Whether one account change diverges from the committed state: some
/// observed value is no longer what the store holds.
pub open spec fn change_conflicts(accs: Seq<StoredAccount>, c: ExecutionAccountChange) -> bool {
    ||| c.nonce.original != committed_nonce(accs, c.address@)
    ||| c.balance.original != committed_balance(accs, c.address@)
    ||| opt_bytes_view(c.bytecode.original) != committed_bytecode(accs, c.address@)
    ||| exists|k: int|
        0 <= k < c.slots@.len() && (#[trigger] c.slots@[k]).change.original@ != committed_slot(
            accs,
            c.address@,
            c.slots@[k].index@,
        )
}

/// Whether any change of an execution diverges from the committed state.
pub open spec fn execution_conflicts(
    accs: Seq<StoredAccount>,
    changes: Seq<ExecutionAccountChange>,
) -> bool {
    exists|i: int| 0 <= i < changes.len() && change_conflicts(accs, #[trigger] changes[i])
}

/// In-memory storage: the committed accounts, the chain of mined blocks,
/// and one snapshot of the accounts per block for point-in-time reads.
#[derive(Debug)]
pub struct InMemoryStorage {
    /// The committed accounts.
    pub accounts: Vec<StoredAccount>,
    /// The chain, indexed by block number.
    pub blocks: Vec<Block>,
    /// `history[n]` is the account state right after block `n` was saved.
    pub history: Vec<Vec<StoredAccount>>,
}

impl InMemoryStorage {
    /// Well-formedness: unique non-ignored accounts, a well-formed chain,
    /// and one well-formed snapshot per block.
    pub open spec fn wf(&self) -> bool {
        &&& wf_accounts(self.accounts@)
        &&& wf_chain(self.blocks@)
        &&& self.history@.len() == self.blocks@.len()
        &&& forall|n: int|
            0 <= n < self.history@.len() ==> wf_accounts((#[trigger] self.history@[n])@)
    }

    /// The account state a point-in-time read sees: a past snapshot, or
    /// the present state when the point is the present or not yet mined.
    pub open spec fn accounts_at(&self, pit: StoragePointInTime) -> Seq<StoredAccount> {
        match pit {
            StoragePointInTime::Present => self.accounts@,
            StoragePointInTime::Past(n) => if n.0 < self.history@.len() {
                self.history@[n.0 as int]@
            } else {
                self.accounts@
            },
        }
    }

    /// An empty store: no accounts, no blocks.
    pub fn new() -> (r: Self)
        ensures
            r.wf(),
            r.accounts@.len() == 0,
            r.blocks@.len() == 0,
            r.history@.len() == 0,
    {
        InMemoryStorage { accounts: Vec::new(), blocks: Vec::new(), history: Vec::new() }
    }

    /// Reads the account at the address as of the chosen point in time; an
    /// address nothing was written to reads as the default account.
    pub fn read_account(&self, address: &Address, point_in_time: StoragePointInTime) -> (r:
        Account)
        ensures
            r.address@ == address@,
            r.nonce == committed_nonce(self.accounts_at(point_in_time), address@),
            r.balance == committed_balance(self.accounts_at(point_in_time), address@),
            opt_bytes_view(r.bytecode) == committed_bytecode(
                self.accounts_at(point_in_time),
                address@,
            ),
    {
        let accounts: &Vec<StoredAccount> = match point_in_time {
            StoragePointInTime::Present => &self.accounts,
            StoragePointInTime::Past(n) => {
                if n.0 < self.history.len() as u64 {
                    &self.history[n.0 as usize]
                } else {
                    &self.accounts
                }
            },
        };
        match find_account(accounts, address) {
            Some(i) => {
                let acc = &accounts[i];
                let bytecode: Option<Vec<u8>> = match &acc.bytecode {
                    Some(code) => {
                        let c = code.clone();
                        proof {
                            assert(c@ =~= code@);
                        }
                        Some(c)
                    },
                    None => None,
                };
                Account { address: *address, nonce: acc.nonce, balance: acc.balance, bytecode }
            },
            None => Account::absent(*address),
        }
    }

    /// Reads the slot of the address as of the chosen point in time; an
    /// unset slot reads as the zero value.
    pub fn read_slot(
        &self,
        address: &Address,
        index: &SlotIndex,
        point_in_time: StoragePointInTime,
    ) -> (r: Slot)
        ensures
            r.index@ == index@,
            r.value@ == committed_slot(self.accounts_at(point_in_time), address@, index@),
    {
        let accounts: &Vec<StoredAccount> = match point_in_time {
            StoragePointInTime::Present => &self.accounts,
            StoragePointInTime::Past(n) => {
                if n.0 < self.history.len() as u64 {
                    &self.history[n.0 as usize]
                } else {
                    &self.accounts
                }
            },
        };
        match find_account(accounts, address) {
            Some(i) => {
                let acc = &accounts[i];
                match find_slot(&acc.slots, index) {
                    Some(k) => Slot { index: *index, value: acc.slots[k].value },
                    None => Slot { index: *index, value: SlotValue::zero() },
                }
            },
            None => Slot { index: *index, value: SlotValue::zero() },
        }
    }

    /// Compares every account and slot an execution observed against the
    /// committed state: reports the divergences, or nothing when every
    /// observation still holds.
    pub fn check_conflicts(&self, execution: &Execution) -> (r: Option<StorageConflict>)
        ensures
            r is Some <==> execution_conflicts(self.accounts@, execution.changes@),
            r matches Some(c) ==> c.entries@.len() > 0,
    {
        let mut entries: Vec<StorageConflictEntry> = Vec::new();
        let n = execution.changes.len();
        let mut i: usize = 0;
        while i < n
            invariant
                i <= n,
                n == execution.changes@.len(),
                entries@.len() > 0 <==> execution_conflicts(
                    self.accounts@,
                    execution.changes@.take(i as int),
                ),
            decreases n - i,
        {
            let c = &execution.changes[i];
            let ghost base = entries@.len();
            let committed = self.read_account(&c.address, StoragePointInTime::Present);

            let nonce_diverged = !(committed.nonce == c.nonce.original);
            if nonce_diverged {
                entries.push(
                    StorageConflictEntry { address: c.address, kind: ConflictKind::Nonce },
                );
            }
            let balance_diverged = !(committed.balance == c.balance.original);
            if balance_diverged {
                entries.push(
                    StorageConflictEntry { address: c.address, kind: ConflictKind::Balance },
                );
            }
            let bytecode_diverged = !opt_bytes_eq(&committed.bytecode, &c.bytecode.original);
            if bytecode_diverged {
                entries.push(
                    StorageConflictEntry { address: c.address, kind: ConflictKind::Bytecode },
                );
            }

            let m = c.slots.len();
            let mut k: usize = 0;
            while k < m
                invariant
                    k <= m,
                    m == c.slots@.len(),
                    entries@.len() >= base,
                    entries@.len() > base <==> (nonce_diverged || balance_diverged
                        || bytecode_diverged || exists|k2: int|
                        0 <= k2 < k && (#[trigger] c.slots@[k2]).change.original@
                            != committed_slot(self.accounts@, c.address@, c.slots@[k2].index@)),
                decreases m - k,
            {
                let sc = c.slots[k];
                let cur = self.read_slot(&c.address, &sc.index, StoragePointInTime::Present);
                proof {
                    assert(sc == c.slots@[k as int]);
                    assert(cur.value@ == committed_slot(
                        self.accounts@,
                        c.address@,
                        c.slots@[k as int].index@,
                    ));
                }
                if !(cur.value == sc.change.original) {
                    entries.push(
                        StorageConflictEntry {
                            address: c.address,
                            kind: ConflictKind::Slot(sc.index),
                        },
                    );
                    proof {
                        assert(c.slots@[k as int].change.original@ != committed_slot(
                            self.accounts@,
                            c.address@,
                            c.slots@[k as int].index@,
                        ));
                    }
                } else {
                    proof {
                        assert(c.slots@[k as int].change.original@ == committed_slot(
                            self.accounts@,
                            c.address@,
                            c.slots@[k as int].index@,
                        ));
                        assert forall|k2: int| 0 <= k2 < k + 1 && (#[trigger] c.slots@[k2]).change.original@
                            != committed_slot(
                            self.accounts@,
                            c.address@,
                            c.slots@[k2].index@,
                        ) implies k2 < k by {}
                    }
                }
                k = k + 1;
            }

            proof {
                let ghost changes = execution.changes@;
                assert(changes.take(i as int + 1).drop_last() =~= changes.take(i as int));
                assert(changes.take(i as int + 1).last() == changes[i as int]);
                if entries@.len() > base {
                    assert(change_conflicts(self.accounts@, changes[i as int]));
                    assert(changes.take(i as int + 1)[i as int] == changes[i as int]);
                    assert(change_conflicts(self.accounts@, changes.take(i as int + 1)[i as int]));
                } else {
                    assert(!change_conflicts(self.accounts@, changes[i as int]));
                    if base > 0 {
                        let ghost w = choose|w: int|
                            0 <= w < changes.take(i as int).len() && change_conflicts(
                                self.accounts@,
                                #[trigger] changes.take(i as int)[w],
                            );
                        assert(changes.take(i as int + 1)[w] == changes.take(i as int)[w]);
                        assert(change_conflicts(
                            self.accounts@,
                            changes.take(i as int + 1)[w],
                        ));
                    } else {
                        assert forall|w: int| 0 <= w < i + 1 implies !change_conflicts(
                            self.accounts@,
                            #[trigger] changes.take(i as int + 1)[w],
                        ) by {
                            if w < i {
                                assert(changes.take(i as int)[w] == changes.take(
                                    i as int + 1,
                                )[w]);
                                assert(!change_conflicts(
                                    self.accounts@,
                                    changes.take(i as int)[w],
                                ));
                            }
                        }
                    }
                }
            }
            i = i + 1;
        }
        proof {
            assert(execution.changes@.take(n as int) =~= execution.changes@);
        }
        if entries.len() > 0 {
            Some(StorageConflict { entries })
        } else {
            None
        }
    }

    /// The number the next block must carry.
    pub fn next_block_number(&self) -> (r: crate::values::BlockNumber)
        requires
            self.blocks@.len() < u64::MAX,
        ensures
            r.0 == self.blocks@.len(),
    {
        crate::values::BlockNumber(self.blocks.len() as u64)
    }

    /// Appends a block atomically. The block is saved only when its number
    /// follows the head, it links to the head (parent hash and strictly
    /// greater timestamp; the zero parent hash at genesis), and none of
    /// its execution's observations diverge from the committed state; its
    /// changes are then applied to the accounts and a snapshot is kept.
    /// On any error the store is unchanged.
    pub fn save_block(&mut self, block: Block) -> (r: Result<(), StorageError>)
        requires
            old(self).wf(),
            block_wf(block),
            old(self).blocks@.len() < u64::MAX,
        ensures
            final(self).wf(),
            r is Ok <==> {
                &&& block.header.number.0 == old(self).blocks@.len()
                &&& (old(self).blocks@.len() == 0 ==> block.header.parent_hash@ == zero_hash())
                &&& (old(self).blocks@.len() > 0 ==> block.header.parent_hash@ == old(
                    self,
                ).blocks@.last().header.hash@ && block.header.timestamp > old(
                    self,
                ).blocks@.last().header.timestamp)
                &&& !execution_conflicts(old(self).accounts@, block_changes(block))
            },
            r is Ok ==> final(self).blocks@ == old(self).blocks@.push(block),
            r is Ok ==> final(self).history@.len() == old(self).history@.len() + 1,
            r is Ok ==> (forall|b: Seq<u8>|
                #[trigger] committed_nonce(final(self).accounts@, b) == nonce_after(
                    block_changes(block),
                    b,
                    committed_nonce(old(self).accounts@, b),
                )),
            r is Ok ==> (forall|b: Seq<u8>|
                #[trigger] committed_balance(final(self).accounts@, b) == balance_after(
                    block_changes(block),
                    b,
                    committed_balance(old(self).accounts@, b),
                )),
            r is Ok ==> (forall|b: Seq<u8>|
                #[trigger] committed_bytecode(final(self).accounts@, b) == bytecode_after(
                    block_changes(block),
                    b,
                    committed_bytecode(old(self).accounts@, b),
                )),
            r is Ok ==> (forall|b: Seq<u8>, idx: Seq<u8>|
                #[trigger] committed_slot(final(self).accounts@, b, idx) == slot_after(
                    block_changes(block),
                    b,
                    idx,
                    committed_slot(old(self).accounts@, b, idx),
                )),
            r is Err ==> *final(self) == *old(self),
            r matches Err(StorageError::NumberMismatch) ==> block.header.number.0 != old(
                self,
            ).blocks@.len(),
            r matches Err(StorageError::ParentMismatch) ==> block.header.number.0 == old(
                self,
            ).blocks@.len(),
            r matches Err(StorageError::Conflict(_)) ==> execution_conflicts(
                old(self).accounts@,
                block_changes(block),
            ),
    {
        // the number must follow the head
        if block.header.number.0 != self.blocks.len() as u64 {
            return Err(StorageError::NumberMismatch);
        }
        // the block must link to the head
        if self.blocks.len() == 0 {
            if !(block.header.parent_hash == crate::hash::Hash::zero()) {
                return Err(StorageError::ParentMismatch);
            }
        } else {
            let last = &self.blocks[self.blocks.len() - 1];
            if !(block.header.parent_hash == last.header.hash) {
                return Err(StorageError::ParentMismatch);
            }
            if !(block.header.timestamp > last.header.timestamp) {
                return Err(StorageError::ParentMismatch);
            }
        }
        // the execution's observations must still hold
        match self.check_conflicts(&block.transactions[0].execution) {
            Some(conflict) => {
                return Err(StorageError::Conflict(conflict));
            },
            None => {},
        }

        // apply the changes of the block's single transaction
        let ghost pre_accounts = self.accounts@;
        let ghost ch = block_changes(block);
        let changes = &block.transactions[0].execution.changes;
        let n = changes.len();
        let mut i: usize = 0;
        while i < n
            invariant
                i <= n,
                n == ch.len(),
                ch == changes@,
                block_wf(block),
                ch == block_changes(block),
                wf_accounts(self.accounts@),
                self.blocks@ == old(self).blocks@,
                self.history@ == old(self).history@,
                forall|b: Seq<u8>|
                    #[trigger] committed_nonce(self.accounts@, b) == nonce_after(
                        ch.take(i as int),
                        b,
                        committed_nonce(pre_accounts, b),
                    ),
                forall|b: Seq<u8>|
                    #[trigger] committed_balance(self.accounts@, b) == balance_after(
                        ch.take(i as int),
                        b,
                        committed_balance(pre_accounts, b),
                    ),
                forall|b: Seq<u8>|
                    #[trigger] committed_bytecode(self.accounts@, b) == bytecode_after(
                        ch.take(i as int),
                        b,
                        committed_bytecode(pre_accounts, b),
                    ),
                forall|b: Seq<u8>, idx: Seq<u8>|
                    #[trigger] committed_slot(self.accounts@, b, idx) == slot_after(
                        ch.take(i as int),
                        b,
                        idx,
                        committed_slot(pre_accounts, b, idx),
                    ),
            decreases n - i,
        {
            let c = &changes[i];
            let ghost mid = self.accounts@;
            proof {
                assert(!is_ignored_address(c.address@));
            }
            apply_change(&mut self.accounts, c);
            proof {
                assert(ch.take(i as int + 1).drop_last() =~= ch.take(i as int));
                assert(ch.take(i as int + 1).last() == ch[i as int]);
                assert forall|b: Seq<u8>|
                    #[trigger] committed_nonce(self.accounts@, b) == nonce_after(
                        ch.take(i as int + 1),
                        b,
                        committed_nonce(pre_accounts, b),
                    ) by {
                    assert(committed_nonce(mid, b) == nonce_after(
                        ch.take(i as int),
                        b,
                        committed_nonce(pre_accounts, b),
                    ));
                }
                assert forall|b: Seq<u8>|
                    #[trigger] committed_balance(self.accounts@, b) == balance_after(
                        ch.take(i as int + 1),
                        b,
                        committed_balance(pre_accounts, b),
                    ) by {
                    assert(committed_balance(mid, b) == balance_after(
                        ch.take(i as int),
                        b,
                        committed_balance(pre_accounts, b),
                    ));
                }
                assert forall|b: Seq<u8>|
                    #[trigger] committed_bytecode(self.accounts@, b) == bytecode_after(
                        ch.take(i as int + 1),
                        b,
                        committed_bytecode(pre_accounts, b),
                    ) by {
                    assert(committed_bytecode(mid, b) == bytecode_after(
                        ch.take(i as int),
                        b,
                        committed_bytecode(pre_accounts, b),
                    ));
                }
                assert forall|b: Seq<u8>, idx: Seq<u8>|
                    #[trigger] committed_slot(self.accounts@, b, idx) == slot_after(
                        ch.take(i as int + 1),
                        b,
                        idx,
                        committed_slot(pre_accounts, b, idx),
                    ) by {
                    assert(committed_slot(mid, b, idx) == slot_after(
                        ch.take(i as int),
                        b,
                        idx,
                        committed_slot(pre_accounts, b, idx),
                    ));
                }
            }
            i = i + 1;
        }
        proof {
            assert(ch.take(n as int) =~= ch);
        }

        // keep a snapshot of the state as of this block
        let snapshot = clone_accounts(&self.accounts);
        proof {
            assert forall|i2: int, j2: int|
                0 <= i2 < j2 < snapshot@.len() implies (#[trigger] snapshot@[i2]).address@
                != (#[trigger] snapshot@[j2]).address@ by {
                assert(account_eqv(snapshot@[i2], self.accounts@[i2]));
                assert(account_eqv(snapshot@[j2], self.accounts@[j2]));
            }
            assert forall|i2: int| 0 <= i2 < snapshot@.len() implies !is_ignored_address(
                (#[trigger] snapshot@[i2]).address@,
            ) && wf_slots(snapshot@[i2].slots@) by {
                assert(account_eqv(snapshot@[i2], self.accounts@[i2]));
            }
        }
        self.history.push(snapshot);
        self.blocks.push(block);
        proof {
            let blocks = self.blocks@;
            let prev = old(self).blocks@;
            assert(blocks =~= prev.push(block));
            assert forall|n2: int| 0 <= n2 < blocks.len() implies (#[trigger] blocks[n2]).header.number.0
                == n2 && block_wf(blocks[n2]) by {
                if n2 < prev.len() {
                    assert(blocks[n2] == prev[n2]);
                }
            }
            assert forall|n2: int|
                1 <= n2 < blocks.len() implies (#[trigger] blocks[n2]).header.parent_hash@
                == blocks[n2 - 1].header.hash@ && blocks[n2].header.timestamp
                > blocks[n2 - 1].header.timestamp by {
                if n2 < prev.len() {
                    assert(blocks[n2] == prev[n2]);
                    assert(blocks[n2 - 1] == prev[n2 - 1]);
                } else {
                    assert(blocks[n2] == block);
                    assert(blocks[n2 - 1] == prev.last());
                }
            }
            assert forall|n2: int| 0 <= n2 < self.history@.len() implies wf_accounts(
                (#[trigger] self.history@[n2])@,
            ) by {
                if n2 < old(self).history@.len() {
                    assert(self.history@[n2] == old(self).history@[n2]);
                }
            }
        }
        Ok(())
    }

    /// Reads a block: the head, by number, or by hash; nothing when no
    /// such block was mined.
    pub fn read_block(&self, selector: &BlockSelector) -> (r: Option<&Block>)
        ensures
            match *selector {
                BlockSelector::Latest => (r is Some <==> self.blocks@.len() > 0) && (r matches Some(
                    b,
                ) ==> *b == self.blocks@.last()),
                BlockSelector::Number(n) => (r is Some <==> n.0 < self.blocks@.len()) && (r matches
                    Some(b) ==> *b == self.blocks@[n.0 as int]),
                BlockSelector::Hash(h) => (r is Some <==> exists|i: int|
                    0 <= i < self.blocks@.len() && (#[trigger] self.blocks@[i]).header.hash@ == h@)
                    && (r matches Some(b) ==> b.header.hash@ == h@ && exists|i: int|
                    0 <= i < self.blocks@.len() && *b == #[trigger] self.blocks@[i]),
            },
    {
        match selector {
            BlockSelector::Latest => {
                if self.blocks.len() > 0 {
                    Some(&self.blocks[self.blocks.len() - 1])
                } else {
                    None
                }
            },
            BlockSelector::Number(n) => {
                if n.0 < self.blocks.len() as u64 {
                    Some(&self.blocks[n.0 as usize])
                } else {
                    None
                }
            },
            BlockSelector::Hash(h) => {
                let len = self.blocks.len();
                let mut i: usize = 0;
                while i < len
                    invariant
                        i <= len,
                        len == self.blocks@.len(),
                        *selector == BlockSelector::Hash(*h),
                        forall|j: int|
                            0 <= j < i ==> (#[trigger] self.blocks@[j]).header.hash@ != h@,
                    decreases len - i,
                {
                    if self.blocks[i].header.hash == *h {
                        proof {
                            assert((#[trigger] self.blocks@[i as int]).header.hash@ == h@);
                        }
                        return Some(&self.blocks[i]);
                    }
                    i = i + 1;
                }
                None
            },
        }
    }

    /// Reads a mined transaction by its hash; nothing when no transaction
    /// with that hash was mined.
    pub fn read_mined_transaction(&self, hash: &crate::hash::Hash) -> (r: Option<
        &TransactionMined,
    >)
        requires
            self.wf(),
        ensures
            r is Some <==> exists|n: int|
                0 <= n < self.blocks@.len() && (#[trigger] self.blocks@[n]).transactions@[0].input.hash@
                    == hash@,
            r matches Some(t) ==> t.input.hash@ == hash@ && exists|n: int|
                0 <= n < self.blocks@.len() && *t == (#[trigger] self.blocks@[n]).transactions@[0],
    {
        let len = self.blocks.len();
        let mut n: usize = 0;
        while n < len
            invariant
                self.wf(),
                n <= len,
                len == self.blocks@.len(),
                forall|j: int|
                    0 <= j < n ==> (#[trigger] self.blocks@[j]).transactions@[0].input.hash@
                        != hash@,
            decreases len - n,
        {
            let b = &self.blocks[n];
            let tx = &b.transactions[0];
            if tx.input.hash == *hash {
                return Some(tx);
            }
            n = n + 1;
        }
        None
    }

    /// Reads the persisted logs that match the filter, in
    /// (block number, transaction index, log index) order: exactly those
    /// logs of the chain the filter matches.
    pub fn read_logs(&self, filter: &LogFilter) -> (r: Vec<LogMined>)
        requires
            self.wf(),
        ensures
            r@.len() == matching_logs(self.blocks@, *filter).len(),
            forall|i: int|
                0 <= i < r@.len() ==> log_mined_eqv(
                    #[trigger] r@[i],
                    matching_logs(self.blocks@, *filter)[i],
                ),
    {
        let mut out: Vec<LogMined> = Vec::new();
        let len = self.blocks.len();
        let mut n: usize = 0;
        while n < len
            invariant
                self.wf(),
                n <= len,
                len == self.blocks@.len(),
                out@.len() == matching_logs(self.blocks@.take(n as int), *filter).len(),
                forall|i: int|
                    0 <= i < out@.len() ==> log_mined_eqv(
                        #[trigger] out@[i],
                        matching_logs(self.blocks@.take(n as int), *filter)[i],
                    ),
            decreases len - n,
        {
            let b = &self.blocks[n];
            let tx = &b.transactions[0];
            let ghost pre_chain = chain_logs(self.blocks@.take(n as int));
            let ghost logs = tx.logs@;
            let m = tx.logs.len();
            let mut k: usize = 0;
            while k < m
                invariant
                    k <= m,
                    m == logs.len(),
                    logs == tx.logs@,
                    out@.len() == (matching_of(pre_chain, *filter)
                        + matching_of(logs.take(k as int), *filter)).len(),
                    forall|i: int|
                        0 <= i < out@.len() ==> log_mined_eqv(
                            #[trigger] out@[i],
                            (matching_of(pre_chain, *filter) + matching_of(
                                logs.take(k as int),
                                *filter,
                            ))[i],
                        ),
                decreases m - k,
            {
                let lg = &tx.logs[k];
                proof {
                    assert(logs.take(k as int + 1).drop_last() =~= logs.take(k as int));
                    assert(logs.take(k as int + 1).last() == logs[k as int]);
                }
                if filter.matches(lg) {
                    out.push(lg.clone());
                }
                k = k + 1;
            }
            proof {
                assert(logs.take(m as int) =~= logs);
                crate::block::lemma_block_logs_single(self.blocks@[n as int]);
                assert(self.blocks@.take(n as int + 1).drop_last() =~= self.blocks@.take(
                    n as int,
                ));
                assert(self.blocks@.take(n as int + 1).last() == self.blocks@[n as int]);
                assert(chain_logs(self.blocks@.take(n as int + 1)) =~= pre_chain + logs);
                lemma_matching_of_add(pre_chain, logs, *filter);
            }
            n = n + 1;
        }
        proof {
            assert(self.blocks@.take(len as int) =~= self.blocks@);
        }
        out
    }
}

/// Law: block chain continuity. In every well-formed store, each block
/// after the genesis names the previous block's hash as its parent.
pub proof fn lemma_chain_continuity(s: &InMemoryStorage, n: int)
    requires
        s.wf(),
        1 <= n < s.blocks@.len(),
    ensures
        s.blocks@[n].header.parent_hash@ == s.blocks@[n - 1].header.hash@,
{
}

/// Law: block numbers are contiguous from zero. In every well-formed
/// store, the block at position n carries number n, so a run of k
/// successful appends yields exactly the numbers from the old head count
/// upward.
pub proof fn lemma_block_numbers_contiguous(s: &InMemoryStorage, n: int)
    requires
        s.wf(),
        0 <= n < s.blocks@.len(),
    ensures
        s.blocks@[n].header.number.0 == n,
{
}

/// Law: a saved block stays readable. The block at position n of a
/// well-formed store carries number n, so reading by that number yields
/// exactly that block, and the head's number never falls below it.
pub proof fn lemma_saved_block_is_readable(s: &InMemoryStorage, n: int)
    requires
        s.wf(),
        0 <= n < s.blocks@.len(),
    ensures
        s.blocks@[n].header.number.0 == n,
        s.blocks@.last().header.number.0 >= n,
{
}

/// Law: monotonic timestamps. In every well-formed store, timestamps
/// strictly increase along the chain.
pub proof fn lemma_monotonic_timestamps(s: &InMemoryStorage, n: int)
    requires
        s.wf(),
        1 <= n < s.blocks@.len(),
    ensures
        s.blocks@[n].header.timestamp > s.blocks@[n - 1].header.timestamp,
{
}

/// Law: log ordering. Within every block of a well-formed store, the
/// single transaction has index zero and its logs are numbered
/// contiguously from zero, so (transaction index, log index) strictly
/// increases in emission order.
pub proof fn lemma_log_ordering(s: &InMemoryStorage, n: int, i: int)
    requires
        s.wf(),
        0 <= n < s.blocks@.len(),
        0 <= i < s.blocks@[n].transactions@[0].logs@.len(),
    ensures
        s.blocks@[n].transactions@.len() == 1,
        s.blocks@[n].transactions@[0].transaction_index.0 == 0,
        s.blocks@[n].transactions@[0].logs@[i].log_index.0 == i,
{
    assert(block_wf(s.blocks@[n]));
}

/// Law: ignored-address purity. No well-formed store holds an account at
/// an ignored address, and no saved block carries a change of one.
pub proof fn lemma_ignored_address_purity(s: &InMemoryStorage, n: int, i: int)
    requires
        s.wf(),
        0 <= n < s.blocks@.len(),
        0 <= i < block_changes(s.blocks@[n]).len(),
    ensures
        !is_ignored_address(block_changes(s.blocks@[n])[i].address@),
        forall|k: int|
            0 <= k < s.accounts@.len() ==> !is_ignored_address(
                (#[trigger] s.accounts@[k]).address@,
            ),
{
    assert(block_wf(s.blocks@[n]));
}

} // verus!
