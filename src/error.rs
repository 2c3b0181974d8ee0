use vstd::prelude::*;

verus! {

/// Why an escrow operation was refused. A refused operation leaves the ledger unchanged.
#[derive(Clone, Copy, Debug, PartialEq, Eq, Structural)]
pub enum EscrowError {
    /// The signer of a cancel is not the maker stored in the record.
    InvalidMaker,
    /// The declared asset A, or the asset of a holding account meant for asset A, is not the
    /// asset A of the operation.
    InvalidMintA,
    /// The declared asset B, or the asset of a holding account meant for asset B, is not the
    /// record's asset B.
    InvalidMintB,
    /// No open record exists for the referenced (maker, seed) pair.
    RecordNotFound,
    /// The paying holding account has less than the amount to move.
    InsufficientBalance,
    /// A record for this (maker, seed) pair is already open.
    DuplicateSeed,
    /// A deposit or receive amount of zero.
    InvalidAmount,
    /// A referenced holding account is missing, closed, or controlled by someone else.
    InvalidAccount,
    /// Crediting a holding account would exceed `u64::MAX`.
    Overflow,
}

} // verus!
