//! Ethereum account addresses.
//!
//! An address is a 20-byte identifier for a wallet or a contract. Two
//! addresses are distinguished: the zero address and the coinbase address
//! (last byte `0xff`, all others zero). State changes touching either of
//! them are ignored by the persistence layer, because the coinbase is never
//! actually charged gas and the zero address stands for "no account".

use vstd::prelude::*;

verus! {

/// Address of an Ethereum account (wallet or contract).
#[derive(Clone, Copy, Debug)]
pub struct Address {
    pub bytes: [u8; 20],
}

impl View for Address {
    type V = Seq<u8>;

    open spec fn view(&self) -> Seq<u8> {
        self.bytes@
    }
}

/// The 20-byte all-zero address.
pub open spec fn zero_address() -> Seq<u8> {
    Seq::new(20, |i: int| 0u8)
}

/// The coinbase address: 19 zero bytes followed by `0xff`.
pub open spec fn coinbase_address() -> Seq<u8> {
    Seq::new(20, |i: int| if i == 19 { 0xffu8 } else { 0u8 })
}

/// Whether an address view denotes an account whose state changes are
/// never persisted.
pub open spec fn is_ignored_address(a: Seq<u8>) -> bool {
    a == zero_address() || a == coinbase_address()
}

impl Address {
    /// Creates a new address from the given bytes.
    pub fn new(bytes: [u8; 20]) -> (r: Self)
        ensures
            r@ == bytes@,
    {
        Address { bytes }
    }

    /// The zero address.
    pub fn zero() -> (r: Self)
        ensures
            r@ == zero_address(),
    {
        let a = Address { bytes: [0u8; 20] };
        proof {
            assert(a@ =~= zero_address());
        }
        a
    }

    /// The address that receives the block reward.
    pub fn coinbase() -> (r: Self)
        ensures
            r@ == coinbase_address(),
    {
        let a = Address {
            bytes: [
                0u8, 0u8, 0u8, 0u8, 0u8, 0u8, 0u8, 0u8, 0u8, 0u8, 0u8, 0u8, 0u8, 0u8, 0u8, 0u8,
                0u8, 0u8, 0u8, 0xffu8,
            ],
        };
        proof {
            assert(a@ =~= coinbase_address());
        }
        a
    }

    /// Copies the address bytes out.
    pub fn to_bytes(&self) -> (r: [u8; 20])
        ensures
            r@ == self@,
    {
        self.bytes
    }

    /// Checks if the current address is the zero address.
    pub fn is_zero(&self) -> (r: bool)
        ensures
            r == (self@ == zero_address()),
    {
        let mut i: usize = 0;
        while i < 20
            invariant
                i <= 20,
                forall|j: int| 0 <= j < i ==> self.bytes@[j] == 0u8,
            decreases 20 - i,
        {
            if self.bytes[i] != 0 {
                proof {
                    assert(self@[i as int] != zero_address()[i as int]);
                }
                return false;
            }
            i = i + 1;
        }
        proof {
            assert(self@ =~= zero_address());
        }
        true
    }

    /// Checks if the current address is the coinbase address.
    pub fn is_coinbase(&self) -> (r: bool)
        ensures
            r == (self@ == coinbase_address()),
    {
        if self.bytes[19] != 0xff {
            proof {
                assert(self@[19] != coinbase_address()[19]);
            }
            return false;
        }
        let mut i: usize = 0;
        while i < 19
            invariant
                i <= 19,
                self.bytes@[19] == 0xffu8,
                forall|j: int| 0 <= j < i ==> self.bytes@[j] == 0u8,
            decreases 19 - i,
        {
            if self.bytes[i] != 0 {
                proof {
                    assert(self@[i as int] != coinbase_address()[i as int]);
                }
                return false;
            }
            i = i + 1;
        }
        proof {
            assert(self@ =~= coinbase_address());
        }
        true
    }

    /// Checks if state changes of the current address must be ignored by
    /// persistence: true exactly for the zero and coinbase addresses.
    pub fn is_ignored(&self) -> (r: bool)
        ensures
            r == is_ignored_address(self@),
    {
        self.is_coinbase() || self.is_zero()
    }
}

impl PartialEq for Address {
    fn eq(&self, other: &Address) -> (r: bool) {
        let mut i: usize = 0;
        while i < 20
            invariant
                i <= 20,
                forall|j: int| 0 <= j < i ==> self.bytes@[j] == other.bytes@[j],
            decreases 20 - i,
        {
            if self.bytes[i] != other.bytes[i] {
                return false;
            }
            i = i + 1;
        }
        proof {
            assert(self.bytes@ =~= other.bytes@);
        }
        true
    }
}

impl vstd::std_specs::cmp::PartialEqSpecImpl for Address {
    open spec fn obeys_eq_spec() -> bool {
        true
    }

    open spec fn eq_spec(&self, other: &Address) -> bool {
        self.bytes@ == other.bytes@
    }
}

} // verus!
