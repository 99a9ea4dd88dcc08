//! Blocks of the single-transaction chain.
//!
//! A block's hash is the digest of a canonical fixed-width encoding of its
//! header (every field but the hash itself). The logs bloom is left clear:
//! readers of this chain filter logs directly against the stored logs.

use vstd::prelude::*;

use crate::address::Address;
use crate::log::LogMined;
use crate::transaction::TransactionMined;
use crate::values::{BlockNumber, Gas};

verus! {

/// Header of a block.
#[derive(Clone, Copy, Debug)]
pub struct BlockHeader {
    /// Number of the block; contiguous from zero.
    pub number: BlockNumber,
    /// Digest of the canonical encoding of this header.
    pub hash: crate::hash::Hash,
    /// Hash of the previous block; the zero hash for the genesis block.
    pub parent_hash: crate::hash::Hash,
    /// Timestamp in seconds; strictly greater than the parent's.
    pub timestamp: u64,
    /// Root derived from the block's single transaction.
    pub transactions_root: crate::hash::Hash,
    /// Root derived from the block's receipts; clear in this chain.
    pub receipts_root: crate::hash::Hash,
    /// Address credited with the block: always the coinbase.
    pub miner: Address,
    /// Gas consumed by the block's single transaction.
    pub gas_used: Gas,
}

/// A mined block: a header and its transactions. Blocks of this chain
/// carry exactly one transaction.
#[derive(Clone, Debug)]
pub struct Block {
    /// The block's header.
    pub header: BlockHeader,
    /// The block's transactions, exactly one in this chain.
    pub transactions: Vec<TransactionMined>,
}

/// Big-endian bytes of a 64-bit value.
pub open spec fn be_bytes_of_u64(x: u64) -> Seq<u8> {
    seq![
        (x >> 56) as u8,
        (x >> 48) as u8,
        (x >> 40) as u8,
        (x >> 32) as u8,
        (x >> 24) as u8,
        (x >> 16) as u8,
        (x >> 8) as u8,
        x as u8,
    ]
}

/// The canonical encoding of a header, hash field excluded: the input of
/// the block hash.
pub open spec fn header_bytes(h: BlockHeader) -> Seq<u8> {
    be_bytes_of_u64(h.number.0) + h.parent_hash@ + be_bytes_of_u64(h.timestamp)
        + h.transactions_root@ + h.receipts_root@ + h.miner@ + be_bytes_of_u64(h.gas_used.0)
}

/// The 32-byte digest an outside hash function assigns to a byte
/// sequence.
pub uninterp spec fn keccak_of(data: Seq<u8>) -> Seq<u8>;

/// Relies on ethers_core::utils::keccak256: a 32-byte digest that depends
/// on the input bytes alone.
#[verifier::external_body]
pub(crate) fn keccak256(data: &Vec<u8>) -> (r: [u8; 32])
    ensures
        r@ == keccak_of(data@),
{
    ethers_core::utils::keccak256(data.as_slice())
}

/// Appends a byte string to a buffer.
pub(crate) fn append_bytes(dst: &mut Vec<u8>, src: &[u8])
    ensures
        final(dst)@ == old(dst)@ + src@,
{
    let mut i: usize = 0;
    while i < src.len()
        invariant
            i <= src@.len(),
            dst@ == old(dst)@ + src@.subrange(0, i as int),
        decreases src@.len() - i,
    {
        dst.push(src[i]);
        proof {
            assert(old(dst)@ + src@.subrange(0, i as int + 1) =~= (old(dst)@ + src@.subrange(
                0,
                i as int,
            )).push(src@[i as int]));
        }
        i = i + 1;
    }
    proof {
        assert(src@.subrange(0, src@.len() as int) =~= src@);
    }
}

/// Big-endian encoding of a 64-bit value.
fn u64_be_bytes(x: u64) -> (r: [u8; 8])
    ensures
        r@ == be_bytes_of_u64(x),
{
    let r: [u8; 8] = [
        (x >> 56) as u8,
        (x >> 48) as u8,
        (x >> 40) as u8,
        (x >> 32) as u8,
        (x >> 24) as u8,
        (x >> 16) as u8,
        (x >> 8) as u8,
        x as u8,
    ];
    proof {
        assert(r@ =~= be_bytes_of_u64(x));
    }
    r
}

/// Computes the canonical encoding of a header, hash field excluded.
pub fn encode_header(h: &BlockHeader) -> (r: Vec<u8>)
    ensures
        r@ == header_bytes(*h),
{
    let mut out: Vec<u8> = Vec::new();
    let number = u64_be_bytes(h.number.0);
    append_bytes(&mut out, number.as_slice());
    append_bytes(&mut out, h.parent_hash.bytes.as_slice());
    let timestamp = u64_be_bytes(h.timestamp);
    append_bytes(&mut out, timestamp.as_slice());
    append_bytes(&mut out, h.transactions_root.bytes.as_slice());
    append_bytes(&mut out, h.receipts_root.bytes.as_slice());
    append_bytes(&mut out, h.miner.bytes.as_slice());
    let gas_used = u64_be_bytes(h.gas_used.0);
    append_bytes(&mut out, gas_used.as_slice());
    proof {
        assert(out@ =~= header_bytes(*h));
    }
    out
}

/// Computes a block's hash: the digest of the canonical encoding of its
/// header.
pub fn compute_block_hash(h: &BlockHeader) -> (r: crate::hash::Hash)
    ensures
        r@ == keccak_of(header_bytes(*h)),
{
    let bytes = encode_header(h);
    crate::hash::Hash::new(keccak256(&bytes))
}

/// Internal consistency of a mined block: exactly one transaction, at
/// index zero, logs numbered from zero carrying the block's coordinates,
/// and no state change of an ignored address.
pub open spec fn block_wf(b: Block) -> bool {
    &&& b.transactions@.len() == 1
    &&& b.transactions@[0].transaction_index.0 == 0
    &&& forall|i: int|
        0 <= i < b.transactions@[0].logs@.len() ==> {
            let ml = #[trigger] b.transactions@[0].logs@[i];
            ml.log_index.0 == i && ml.transaction_index.0 == 0 && ml.block_number
                == b.header.number && ml.block_hash == b.header.hash
        }
    &&& forall|i: int|
        0 <= i < b.transactions@[0].execution.changes@.len() ==> !crate::address::is_ignored_address(
            (#[trigger] b.transactions@[0].execution.changes@[i]).address@,
        )
}

/// The logs of a sequence of mined transactions, in order.
pub open spec fn txs_logs(txs: Seq<TransactionMined>) -> Seq<LogMined>
    decreases txs.len(),
{
    if txs.len() == 0 {
        Seq::empty()
    } else {
        txs_logs(txs.drop_last()) + txs.last().logs@
    }
}

/// The logs of a block, in order.
pub open spec fn block_logs(b: Block) -> Seq<LogMined> {
    txs_logs(b.transactions@)
}

/// A single-transaction block's logs are its transaction's logs.
pub proof fn lemma_block_logs_single(b: Block)
    requires
        b.transactions@.len() == 1,
    ensures
        block_logs(b) == b.transactions@[0].logs@,
{
    assert(b.transactions@.drop_last() =~= Seq::<TransactionMined>::empty());
    assert(txs_logs(Seq::<TransactionMined>::empty()) =~= Seq::<LogMined>::empty());
    assert(block_logs(b) =~= b.transactions@[0].logs@);
}

} // verus!
