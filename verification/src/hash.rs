//! Ethereum-style 32-byte hashes, identifying blocks and transactions.

use vstd::prelude::*;
use vstd::string::StringSliceAdditionalSpecFns;

use crate::hexcodec::{
    ascii_chars_of, bytes_of_hex, decode_fixed_hex, encode_prefixed, hex_prefixed,
    strip_hex_prefix, valid_fixed_hex,
};

verus! {

/// A 32-byte identifier of a block or of a transaction.
#[derive(Clone, Copy, Debug)]
pub struct Hash {
    pub bytes: [u8; 32],
}

/// The all-zero hash.
pub open spec fn zero_hash() -> Seq<u8> {
    Seq::new(32, |i: int| 0u8)
}

/// Error of parsing a primitive from a string: the length or the hex
/// alphabet is wrong.
#[derive(Clone, Copy, Debug, PartialEq, Eq, Structural)]
pub enum HashParseError {
    InvalidFormat,
}

impl View for Hash {
    type V = Seq<u8>;

    open spec fn view(&self) -> Seq<u8> {
        self.bytes@
    }
}

impl Hash {
    /// Creates a hash from the given bytes.
    pub fn new(bytes: [u8; 32]) -> (r: Self)
        ensures
            r@ == bytes@,
    {
        Hash { bytes }
    }

    /// Returns the zero hash.
    pub fn zero() -> (r: Self)
        ensures
            r@ == zero_hash(),
    {
        let h = Hash { bytes: [0u8; 32] };
        proof {
            assert(h@ =~= zero_hash());
        }
        h
    }

    /// Creates a new random hash. Relies on
    /// ethers_core::types::H256::random: a hash drawn from the thread-local
    /// random number generator; nothing is promised of its value.
    #[verifier::external_body]
    pub fn new_random() -> (r: Self) {
        Hash { bytes: ethers_core::types::H256::random().0 }
    }

    /// The hex-prefixed display form of the hash.
    pub fn to_hex(&self) -> (r: String)
        ensures
            r@ == ascii_chars_of(hex_prefixed(self@)),
    {
        encode_prefixed(self.bytes.as_slice())
    }

    /// Parses a hash from a hex string with an optional `0x` prefix;
    /// exactly 64 hex digits are accepted.
    pub fn from_str(s: &str) -> (r: Result<Self, HashParseError>)
        ensures
            r is Ok <==> valid_fixed_hex(s.spec_bytes(), 32),
            r matches Ok(h) ==> h@ == bytes_of_hex(strip_hex_prefix(s.spec_bytes())),
            r matches Err(e) ==> e == HashParseError::InvalidFormat,
    {
        match decode_fixed_hex(s, 32) {
            Some(v) => {
                let mut bytes = [0u8; 32];
                let mut i: usize = 0;
                while i < 32
                    invariant
                        i <= 32,
                        v@.len() == 32,
                        forall|j: int| 0 <= j < i ==> bytes@[j] == v@[j],
                    decreases 32 - i,
                {
                    bytes[i] = v[i];
                    i = i + 1;
                }
                proof {
                    assert(bytes@ =~= v@);
                }
                Ok(Hash { bytes })
            },
            None => Err(HashParseError::InvalidFormat),
        }
    }
}

impl PartialEq for Hash {
    fn eq(&self, other: &Hash) -> bool {
        crate::values::bytes32_eq(&self.bytes, &other.bytes)
    }
}

impl vstd::std_specs::cmp::PartialEqSpecImpl for Hash {
    open spec fn obeys_eq_spec() -> bool {
        true
    }

    open spec fn eq_spec(&self, other: &Hash) -> bool {
        self.bytes@ == other.bytes@
    }
}

} // verus!
