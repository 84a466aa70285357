//! Errors of the escrow core.
//!
//! Every failure is terminal for the calling request: no operation retries,
//! and no failure is downgraded or masked.

use vstd::prelude::*;

verus! {

/// The ways an escrow operation can be rejected.
#[derive(Clone, Copy, PartialEq, Eq, Structural, Debug)]
pub enum EscrowError {
    /// An account already lives at the derived escrow address (duplicate
    /// initialization for the same owner).
    AlreadyExists,
    /// A caller-supplied address does not equal the address the protocol
    /// independently re-derives. Security-relevant: never downgraded.
    AddressMismatch,
    /// No account lives at an address the operation requires to exist.
    NotFound,
    /// The bounded search for a disambiguation value found none: a fatal
    /// configuration error of the derivation inputs.
    DerivationExhausted,
    /// The host's value-transfer primitive rejected the movement (wrong
    /// authority, mismatched mint, or insufficient balance).
    TransferFailed,
}

} // verus!
