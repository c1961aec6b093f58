//! The relay pipeline's error taxonomy.  Every step fails fast with one of
//! these; no step retries.  `ProgramIdentityMismatch` is the submission
//! gate's verdict and is always checked strictly before any transaction is
//! sent.

use vstd::prelude::*;

verus! {

#[derive(Clone, Copy, Debug, PartialEq, Eq, Structural)]
pub enum RelayError {
    /// No transaction receipt exists for the given hash.
    NotFound,
    /// The receipt carries no block number.
    NotIncluded,
    /// The commitment block lies before the execution block.
    InvalidCommitmentBlock,
    /// No matching event was found in the transaction receipt.
    EventNotFound,
    /// The matching event carries an empty payload.
    EmptyMessage,
    /// The preflight query did not return the receipt-derived event.
    CommitmentMismatch,
    /// Malformed input or journal bytes.
    SerializationError,
    /// The verification program's event-inclusion check failed.
    VerificationAssertionFailure,
    /// The destination contract expects a different verification program.
    ProgramIdentityMismatch,
    /// The destination transaction reverted or could not confirm.
    SubmissionFailed,
}

impl RelayError {
    /// A short operator-facing description.
    pub fn message(&self) -> &'static str {
        match self {
            RelayError::NotFound => "No transaction found with given tx_hash",
            RelayError::NotIncluded => "Tx was not included in a block",
            RelayError::InvalidCommitmentBlock => "commitment block must be greater than or equal to execution block",
            RelayError::EventNotFound => "No SendTransceiverMessage event found in transaction receipt",
            RelayError::EmptyMessage => "No encoded message found in SendTransceiverMessage event",
            RelayError::CommitmentMismatch => "Log with given message not found in contract at execution block",
            RelayError::SerializationError => "Failed to deserialize GuestInput",
            RelayError::VerificationAssertionFailure => "Event for given message not contained in logs for this block",
            RelayError::ProgramIdentityMismatch => "Contract image ID does not match image ID being used to build proofs",
            RelayError::SubmissionFailed => "transaction failed",
        }
    }
}

} // verus!
