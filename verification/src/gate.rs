//! The submission gate: the checks that must pass before the relayer
//! spends any transaction fee.  It decodes the returned journal and
//! requires the destination contract's declared program identity to equal
//! the identity the proof was built against; a mismatch is fatal, because
//! the destination verifier would categorically reject the proof — or,
//! worse, accept one built against unintended program logic.

use vstd::prelude::*;
use crate::addr::B256;
use crate::error::RelayError;
use crate::journal::{Journal, JournalView, journal_encodes, lemma_journal_abi_inj};

verus! {

/// The destination call released for submission: the original message bytes,
/// the journal bytes the proof commits to, and the proof's seal.
#[derive(Debug)]
pub struct SubmissionRequest {
    pub encoded_message: Vec<u8>,
    pub journal_data: Vec<u8>,
    pub seal: Vec<u8>,
}

/// The message bytes a journal carries for the destination call.  The
/// digest variant commits no message payload, so its call carries none.
pub open spec fn submission_message(v: JournalView) -> Seq<u8> {
    match v {
        JournalView::FullMessage { commitment, encoded_message, emitter_contract } => {
            encoded_message
        },
        JournalView::Digest { .. } => Seq::<u8>::empty(),
    }
}

/// The identity check's verdict as a function of the journal bytes and the two
/// program identities: malformed journal bytes abort, unequal identities
/// abort, and otherwise the decoded journal is released for submission.
pub open spec fn gate_outcome(
    journal_bytes: Seq<u8>,
    proving_id: Seq<u8>,
    declared_id: Seq<u8>,
) -> Result<JournalView, RelayError> {
    if !(exists|v: JournalView| journal_encodes(journal_bytes, v)) {
        Err(RelayError::SerializationError)
    } else if proving_id != declared_id {
        Err(RelayError::ProgramIdentityMismatch)
    } else {
        Ok(choose|v: JournalView| journal_encodes(journal_bytes, v))
    }
}

/// Decodes the journal, checks the destination's declared program
/// identity against the proving identity, and only then builds the
/// destination call.  The result is exactly `gate_outcome`: in particular
/// no `SubmissionRequest` exists unless the identities are equal.
pub fn authorize_submission(
    journal_bytes: &Vec<u8>,
    seal: Vec<u8>,
    proving_id: &B256,
    declared_id: &B256,
) -> (r: Result<SubmissionRequest, RelayError>)
    requires
        proving_id.wf(),
        declared_id.wf(),
    ensures
        match r {
            Ok(req) => {
                &&& gate_outcome(journal_bytes@, proving_id@, declared_id@) matches Ok(v)
                    && req.encoded_message@ == submission_message(v)
                &&& req.journal_data@ == journal_bytes@
                &&& req.seal@ == seal@
                &&& proving_id@ == declared_id@
            },
            Err(e) => gate_outcome(journal_bytes@, proving_id@, declared_id@) == Err::<
                JournalView,
                RelayError,
            >(e),
        },
{
    let journal = match Journal::abi_decode(journal_bytes) {
        Err(e) => {
            return Err(e);
        },
        Ok(j) => j,
    };
    let ghost v0 = choose|v: JournalView| journal_encodes(journal_bytes@, v);
    proof {
        assert(journal_encodes(journal_bytes@, journal@));
        lemma_journal_abi_inj(journal@, v0);
    }
    if !crate::bytes::bytes_eq(&proving_id.bytes, &declared_id.bytes) {
        return Err(RelayError::ProgramIdentityMismatch);
    }
    let encoded_message: Vec<u8> = match journal {
        Journal::FullMessage { commitment, encoded_message, emitter_contract } => encoded_message,
        Journal::Digest { commitment, message_digest, emitter_identity } => Vec::new(),
    };
    let journal_data = crate::bytes::subvec(journal_bytes, 0, journal_bytes.len());
    proof {
        assert(journal_data@ =~= journal_bytes@);
    }
    Ok(SubmissionRequest { encoded_message, journal_data, seal })
}

/// Law: when the destination contract declares a different program
/// identity than the one the proof was built against, the verdict
/// is an error — no submission request exists, so no transaction is sent.
/// On a decodable journal the error is `ProgramIdentityMismatch` itself.
pub proof fn lemma_gate_blocks_identity_mismatch(
    journal_bytes: Seq<u8>,
    proving_id: Seq<u8>,
    declared_id: Seq<u8>,
)
    requires
        proving_id != declared_id,
    ensures
        gate_outcome(journal_bytes, proving_id, declared_id) is Err,
        (exists|v: JournalView| journal_encodes(journal_bytes, v)) ==> gate_outcome(
            journal_bytes,
            proving_id,
            declared_id,
        ) == Err::<JournalView, RelayError>(RelayError::ProgramIdentityMismatch),
{
}

/// Checks the destination transaction's receipt: a reverted transaction
/// is reported as `SubmissionFailed`, never retried here.
pub fn check_submission_receipt(success: bool) -> (r: Result<(), RelayError>)
    ensures
        match r {
            Ok(u) => success,
            Err(e) => e == RelayError::SubmissionFailed && !success,
        },
{
    if success {
        Ok(())
    } else {
        Err(RelayError::SubmissionFailed)
    }
}

} // verus!
