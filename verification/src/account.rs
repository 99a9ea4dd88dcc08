//! Ethereum accounts: wallets and contracts.

use vstd::prelude::*;

use crate::address::Address;
use crate::values::{opt_bytes_view, Nonce, Wei};

verus! {

/// Whether a bytecode makes its account a contract: present and non-empty.
pub open spec fn is_contract_bytecode(b: Option<Seq<u8>>) -> bool {
    match b {
        Some(code) => code.len() > 0,
        None => false,
    }
}

/// Ethereum account (wallet or contract). An absent account reads as the
/// default: nonce zero, balance zero, no bytecode.
#[derive(Clone, Debug)]
pub struct Account {
    /// Immutable address of the account.
    pub address: Address,
    /// Current nonce of the account.
    pub nonce: Nonce,
    /// Current balance of the account.
    pub balance: Wei,
    /// Contract bytecode. Present only if the account is a contract.
    pub bytecode: Option<Vec<u8>>,
}

impl Account {
    /// The default account stored at an address nothing was written to.
    pub fn absent(address: Address) -> (r: Self)
        ensures
            r.address == address,
            r.nonce == (Nonce(0)),
            r.balance == (Wei(0)),
            r.bytecode is None,
    {
        Account { address, nonce: Nonce(0), balance: Wei(0), bytecode: None }
    }

    /// Checks whether the account is a contract: its bytecode is present
    /// and non-empty.
    pub fn is_contract(&self) -> (r: bool)
        ensures
            r == is_contract_bytecode(opt_bytes_view(self.bytecode)),
    {
        match &self.bytecode {
            Some(bytecode) => bytecode.len() > 0,
            None => false,
        }
    }
}

} // verus!
