//! Small Ethereum value types: unsigned counters and 32-byte words.
//!
//! Nonce and block number grow monotonically; Wei is an account balance or
//! a transferred amount; Gas bounds execution work; Index numbers a
//! transaction or a log inside a block. Log topics and storage slot indexes
//! and values are opaque 32-byte words compared by content.

use vstd::prelude::*;

verus! {

/// Number of transactions sent from an account.
#[derive(Clone, Copy, Debug, PartialEq, Eq, Structural)]
pub struct Nonce(pub u64);

/// An amount of Wei: balance or transferred value.
#[derive(Clone, Copy, Debug, PartialEq, Eq, Structural)]
pub struct Wei(pub u128);

/// An amount of gas.
#[derive(Clone, Copy, Debug, PartialEq, Eq, Structural)]
pub struct Gas(pub u64);

/// Position of a transaction or of a log inside a block.
#[derive(Clone, Copy, Debug, PartialEq, Eq, Structural)]
pub struct Index(pub u64);

/// Number of a block; block numbers are contiguous from zero.
#[derive(Clone, Copy, Debug, PartialEq, Eq, Structural)]
pub struct BlockNumber(pub u64);

/// Compares two 32-byte words by content.
pub fn bytes32_eq(a: &[u8; 32], b: &[u8; 32]) -> (r: bool)
    ensures
        r == (a@ == b@),
{
    let mut i: usize = 0;
    while i < 32
        invariant
            i <= 32,
            forall|j: int| 0 <= j < i ==> a@[j] == b@[j],
        decreases 32 - i,
    {
        if a[i] != b[i] {
            return false;
        }
        i = i + 1;
    }
    proof {
        assert(a@ =~= b@);
    }
    true
}

/// Compares two byte strings by content.
pub fn bytes_eq(a: &[u8], b: &[u8]) -> (r: bool)
    ensures
        r == (a@ == b@),
{
    if a.len() != b.len() {
        return false;
    }
    let mut i: usize = 0;
    while i < a.len()
        invariant
            i <= a@.len(),
            a@.len() == b@.len(),
            forall|j: int| 0 <= j < i ==> a@[j] == b@[j],
        decreases a@.len() - i,
    {
        if a[i] != b[i] {
            return false;
        }
        i = i + 1;
    }
    proof {
        assert(a@ =~= b@);
    }
    true
}

/// Compares two optional bytecodes by content.
pub fn opt_bytes_eq(a: &Option<Vec<u8>>, b: &Option<Vec<u8>>) -> (r: bool)
    ensures
        r == (opt_bytes_view(*a) == opt_bytes_view(*b)),
{
    match (a, b) {
        (Some(x), Some(y)) => bytes_eq(x.as_slice(), y.as_slice()),
        (None, None) => true,
        _ => false,
    }
}

/// View of an optional bytecode as an optional byte sequence.
pub open spec fn opt_bytes_view(b: Option<Vec<u8>>) -> Option<Seq<u8>> {
    match b {
        Some(v) => Some(v@),
        None => None,
    }
}

/// A topic of a log: an opaque 32-byte word.
#[derive(Clone, Copy, Debug)]
pub struct LogTopic(pub [u8; 32]);

impl View for LogTopic {
    type V = Seq<u8>;

    open spec fn view(&self) -> Seq<u8> {
        self.0@
    }
}

impl PartialEq for LogTopic {
    fn eq(&self, other: &LogTopic) -> bool {
        bytes32_eq(&self.0, &other.0)
    }
}

impl vstd::std_specs::cmp::PartialEqSpecImpl for LogTopic {
    open spec fn obeys_eq_spec() -> bool {
        true
    }

    open spec fn eq_spec(&self, other: &LogTopic) -> bool {
        self.0@ == other.0@
    }
}

/// Index of a storage slot of a contract: a 32-byte word.
#[derive(Clone, Copy, Debug)]
pub struct SlotIndex(pub [u8; 32]);

impl View for SlotIndex {
    type V = Seq<u8>;

    open spec fn view(&self) -> Seq<u8> {
        self.0@
    }
}

impl PartialEq for SlotIndex {
    fn eq(&self, other: &SlotIndex) -> bool {
        bytes32_eq(&self.0, &other.0)
    }
}

impl vstd::std_specs::cmp::PartialEqSpecImpl for SlotIndex {
    open spec fn obeys_eq_spec() -> bool {
        true
    }

    open spec fn eq_spec(&self, other: &SlotIndex) -> bool {
        self.0@ == other.0@
    }
}

/// Value held by a storage slot: a 32-byte word, all zero when unset.
#[derive(Clone, Copy, Debug)]
pub struct SlotValue(pub [u8; 32]);

impl View for SlotValue {
    type V = Seq<u8>;

    open spec fn view(&self) -> Seq<u8> {
        self.0@
    }
}

impl PartialEq for SlotValue {
    fn eq(&self, other: &SlotValue) -> bool {
        bytes32_eq(&self.0, &other.0)
    }
}

impl vstd::std_specs::cmp::PartialEqSpecImpl for SlotValue {
    open spec fn obeys_eq_spec() -> bool {
        true
    }

    open spec fn eq_spec(&self, other: &SlotValue) -> bool {
        self.0@ == other.0@
    }
}

/// The all-zero 32-byte word.
pub open spec fn zero_word() -> Seq<u8> {
    Seq::new(32, |i: int| 0u8)
}

impl SlotValue {
    /// The zero slot value: what an unset slot holds.
    pub fn zero() -> (r: Self)
        ensures
            r@ == zero_word(),
    {
        let v = SlotValue([0u8; 32]);
        proof {
            assert(v@ =~= zero_word());
        }
        v
    }
}

/// A storage cell of a contract: an index and the value it holds.
#[derive(Clone, Copy, Debug)]
pub struct Slot {
    pub index: SlotIndex,
    pub value: SlotValue,
}

} // verus!
