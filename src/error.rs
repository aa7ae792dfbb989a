use vstd::prelude::*;

verus! {

/// The ways in which an operation of the protocol can be refused.
/// Every error aborts the whole operation and leaves no effect behind.
#[derive(Clone, Copy, Debug, PartialEq, Eq, Structural)]
pub enum ReceiptErrorCode {
    /// An amount or an account reference fails a precondition.
    InvalidInput,
    /// The source account holds less than the requested amount.
    InsufficientFunds,
    /// A signer or a derived address does not match the one required.
    AuthorityMismatch,
    /// A record or an account already exists at the address to be created.
    DuplicateSetup,
}

} // verus!
