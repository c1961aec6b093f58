//! The verification program: the deterministic logic executed under the
//! proving oracle.  It deserializes the guest input, re-runs the event
//! query against the reconstructed execution context — the only source of
//! truth it trusts — asserts that the expected message (or digest) is
//! among the returned logs, and commits the ABI-encoded journal.  Its
//! whole behaviour is the spec function `program_output`: a function of
//! the input bytes and the pinned context alone, which is what makes the
//! committed journal reproducible byte for byte.

use vstd::prelude::*;
use crate::addr::{Address, univ_of_addr, addr_of_univ};
use crate::error::RelayError;
use crate::event::{RawLog, log_carries_message, is_digest_log, is_message_log, message_event_data};
use crate::input::{GuestInput, GuestInputView, parses_to, lemma_guest_input_bytes_inj};
use crate::journal::{Journal, JournalView, journal_abi};

verus! {

/// The pinned execution context reconstructed from the commitment-building
/// input.  What the program reads from it is exactly the block's logs, for
/// its event query, and the chain commitment derived from the context.
#[derive(Debug)]
pub struct EvmContext {
    pub logs: Vec<RawLog>,
    pub commitment: crate::journal::Commitment,
}

impl EvmContext {
    pub open spec fn wf(&self) -> bool {
        &&& self.commitment.wf()
        &&& forall|i: int| 0 <= i < self.logs@.len() ==> self.logs@[i].wf()
    }
}

/// Some log is a `SendTransceiverMessage` of `contract` carrying `payload`.
pub open spec fn some_message_match(logs: Seq<RawLog>, contract: Seq<u8>, payload: Seq<u8>) -> bool {
    exists|i: int| 0 <= i < logs.len() && log_carries_message(logs[i], contract, payload)
}

/// Some log is a `TransferSent` of `contract` carrying `digest`.
pub open spec fn some_digest_match(logs: Seq<RawLog>, contract: Seq<u8>, digest: Seq<u8>) -> bool {
    exists|i: int| 0 <= i < logs.len() && is_digest_log(logs[i], contract, digest)
}

/// Whether the input's event-inclusion check passes over the context's
/// logs.  The full-message variant queries for its message at the native
/// form of its universal contract address; the digest variant queries for
/// its digest at its native contract address.
pub open spec fn input_matches(v: GuestInputView, logs: Seq<RawLog>) -> bool {
    match v {
        GuestInputView::FullMessage { commitment, contract_addr, encoded_message } => {
            some_message_match(logs, addr_of_univ(contract_addr), encoded_message)
        },
        GuestInputView::Digest { commitment, contract_addr, message_digest } => {
            some_digest_match(logs, contract_addr, message_digest)
        },
    }
}

/// The journal the program commits for input `v` once the check passed:
/// the derived commitment, the verified message or digest, and the emitter
/// identity converted to the variant's expected address form.
pub open spec fn journal_of_input(v: GuestInputView, commitment: Seq<u8>) -> JournalView {
    match v {
        GuestInputView::FullMessage { commitment: inp, contract_addr, encoded_message } => {
            JournalView::FullMessage {
                commitment,
                encoded_message,
                emitter_contract: addr_of_univ(contract_addr),
            }
        },
        GuestInputView::Digest { commitment: inp, contract_addr, message_digest } => {
            JournalView::Digest {
                commitment,
                message_digest,
                emitter_identity: univ_of_addr(contract_addr),
            }
        },
    }
}

/// The program's outcome as a function of the input bytes, the context's
/// logs and the derived commitment: malformed bytes abort, a missing event
/// aborts, and otherwise the ABI-encoded journal is committed.
pub open spec fn program_output(input_bytes: Seq<u8>, logs: Seq<RawLog>, commitment: Seq<u8>) -> Result<
    Seq<u8>,
    RelayError,
> {
    if !(exists|v: GuestInputView| parses_to(input_bytes, v)) {
        Err(RelayError::SerializationError)
    } else {
        let v = choose|v: GuestInputView| parses_to(input_bytes, v);
        if input_matches(v, logs) {
            Ok(journal_abi(journal_of_input(v, commitment)))
        } else {
            Err(RelayError::VerificationAssertionFailure)
        }
    }
}

/// Runs the verification program over the supplied input bytes and the
/// reconstructed context.  The result is exactly `program_output`.
pub fn run_program(input_bytes: &Vec<u8>, ctx: &EvmContext) -> (r: Result<Vec<u8>, RelayError>)
    requires
        ctx.wf(),
    ensures
        match r {
            Ok(out) => program_output(input_bytes@, ctx.logs@, ctx.commitment@) == Ok::<
                Seq<u8>,
                RelayError,
            >(out@),
            Err(e) => program_output(input_bytes@, ctx.logs@, ctx.commitment@) == Err::<
                Seq<u8>,
                RelayError,
            >(e),
        },
{
    let inp = match GuestInput::deserialize(input_bytes) {
        Err(e) => {
            return Err(e);
        },
        Ok(inp) => inp,
    };
    let ghost v0 = choose|v: GuestInputView| parses_to(input_bytes@, v);
    proof {
        assert(parses_to(input_bytes@, inp@));
        lemma_guest_input_bytes_inj(inp@, v0);
    }
    match &inp {
        GuestInput::FullMessage { commitment, contract_addr, encoded_message } => {
            proof {
                assert(v0 == GuestInputView::FullMessage {
                    commitment: commitment@,
                    contract_addr: contract_addr@,
                    encoded_message: encoded_message@,
                });
            }
            let target: Address = crate::addr::from_wormhole_address(contract_addr);
            let mut i: usize = 0;
            let mut found: bool = false;
            while i < ctx.logs.len() && !found
                invariant
                    i <= ctx.logs@.len(),
                    ctx.wf(),
                    target.wf(),
                    found ==> some_message_match(ctx.logs@, target@, encoded_message@),
                    !found ==> forall|j: int|
                        0 <= j < i ==> !log_carries_message(
                            ctx.logs@[j],
                            target@,
                            encoded_message@,
                        ),
                decreases ctx.logs@.len() - i,
            {
                let log = &ctx.logs[i];
                proof {
                    assert(ctx.logs@[i as int].wf());
                }
                match crate::event::decode_message_log(log, &target) {
                    Some(p) => {
                        if crate::bytes::bytes_eq(&p, encoded_message) {
                            found = true;
                            proof {
                                assert(log_carries_message(
                                    ctx.logs@[i as int],
                                    target@,
                                    encoded_message@,
                                ));
                            }
                        } else {
                            proof {
                                if log_carries_message(
                                    ctx.logs@[i as int],
                                    target@,
                                    encoded_message@,
                                ) {
                                    crate::event::lemma_message_payload_unique(
                                        ctx.logs@[i as int],
                                        target@,
                                        p@,
                                        encoded_message@,
                                    );
                                }
                            }
                        }
                    },
                    None => {
                        proof {
                            if log_carries_message(ctx.logs@[i as int], target@, encoded_message@) {
                                let chain = choose|chain: u16|
                                    ctx.logs@[i as int].data@ == message_event_data(
                                        chain,
                                        encoded_message@,
                                    );
                                assert(ctx.logs@[i as int].data@ == message_event_data(
                                    chain,
                                    encoded_message@,
                                ));
                                assert(is_message_log(ctx.logs@[i as int], target@));
                            }
                        }
                    },
                }
                i = i + 1;
            }
            if !found {
                proof {
                    assert(!input_matches(v0, ctx.logs@));
                }
                return Err(RelayError::VerificationAssertionFailure);
            }
            let journal = Journal::FullMessage {
                commitment: ctx.commitment.dup(),
                encoded_message: crate::bytes::subvec(encoded_message, 0, encoded_message.len()),
                emitter_contract: target,
            };
            let out = journal.abi_encode();
            proof {
                assert(encoded_message@.subrange(0, encoded_message@.len() as int)
                    =~= encoded_message@);
                assert(journal@ == journal_of_input(v0, ctx.commitment@));
                assert(input_matches(v0, ctx.logs@));
            }
            Ok(out)
        },
        GuestInput::Digest { commitment, contract_addr, message_digest } => {
            proof {
                assert(v0 == GuestInputView::Digest {
                    commitment: commitment@,
                    contract_addr: contract_addr@,
                    message_digest: message_digest@,
                });
            }
            let mut i: usize = 0;
            let mut found: bool = false;
            while i < ctx.logs.len() && !found
                invariant
                    i <= ctx.logs@.len(),
                    ctx.wf(),
                    contract_addr.wf(),
                    message_digest.wf(),
                    found ==> some_digest_match(ctx.logs@, contract_addr@, message_digest@),
                    !found ==> forall|j: int|
                        0 <= j < i ==> !is_digest_log(
                            ctx.logs@[j],
                            contract_addr@,
                            message_digest@,
                        ),
                decreases ctx.logs@.len() - i,
            {
                let log = &ctx.logs[i];
                proof {
                    assert(ctx.logs@[i as int].wf());
                }
                if crate::event::digest_log_matches(log, contract_addr, message_digest) {
                    found = true;
                }
                i = i + 1;
            }
            if !found {
                proof {
                    assert(!input_matches(v0, ctx.logs@));
                }
                return Err(RelayError::VerificationAssertionFailure);
            }
            let journal = Journal::Digest {
                commitment: ctx.commitment.dup(),
                message_digest: crate::addr::B256 {
                    bytes: crate::bytes::subvec(&message_digest.bytes, 0, message_digest.bytes.len()),
                },
                emitter_identity: crate::addr::to_wormhole_address(contract_addr),
            };
            let out = journal.abi_encode();
            proof {
                assert(message_digest@.subrange(0, message_digest@.len() as int)
                    =~= message_digest@);
                assert(journal@ == journal_of_input(v0, ctx.commitment@));
                assert(input_matches(v0, ctx.logs@));
            }
            Ok(out)
        },
    }
}

/// Law: the program is deterministic.  Over equal input bytes and equal
/// contexts its outcome — in particular the committed journal — is
/// byte-identical, however often it is run.
pub proof fn lemma_program_deterministic(
    b1: Seq<u8>,
    logs1: Seq<RawLog>,
    c1: Seq<u8>,
    b2: Seq<u8>,
    logs2: Seq<RawLog>,
    c2: Seq<u8>,
)
    requires
        b1 == b2,
        logs1 == logs2,
        c1 == c2,
    ensures
        program_output(b1, logs1, c1) == program_output(b2, logs2, c2),
{
}

/// Law: if the context's block holds no matching event for the input, the
/// program fails with its assertion error and commits no journal.
pub proof fn lemma_no_match_fails(
    input_bytes: Seq<u8>,
    logs: Seq<RawLog>,
    commitment: Seq<u8>,
    v: GuestInputView,
)
    requires
        parses_to(input_bytes, v),
        !input_matches(v, logs),
    ensures
        program_output(input_bytes, logs, commitment) == Err::<Seq<u8>, RelayError>(
            RelayError::VerificationAssertionFailure,
        ),
{
    let v0 = choose|w: GuestInputView| parses_to(input_bytes, w);
    lemma_guest_input_bytes_inj(v, v0);
}

/// Law: if some log matches the input's expected message or digest, the
/// program succeeds, and the committed journal holds exactly the derived
/// commitment, the input's message or digest, and the source contract's
/// identity converted to the variant's address form.
pub proof fn lemma_match_commits(
    input_bytes: Seq<u8>,
    logs: Seq<RawLog>,
    commitment: Seq<u8>,
    v: GuestInputView,
)
    requires
        parses_to(input_bytes, v),
        input_matches(v, logs),
    ensures
        program_output(input_bytes, logs, commitment) == Ok::<Seq<u8>, RelayError>(
            journal_abi(journal_of_input(v, commitment)),
        ),
        v matches GuestInputView::FullMessage { commitment: inp, contract_addr, encoded_message }
            ==> journal_of_input(v, commitment) == (JournalView::FullMessage {
            commitment,
            encoded_message,
            emitter_contract: addr_of_univ(contract_addr),
        }),
        v matches GuestInputView::Digest { commitment: inp, contract_addr, message_digest }
            ==> journal_of_input(v, commitment) == (JournalView::Digest {
            commitment,
            message_digest,
            emitter_identity: univ_of_addr(contract_addr),
        }),
{
    let v0 = choose|w: GuestInputView| parses_to(input_bytes, w);
    lemma_guest_input_bytes_inj(v, v0);
}

/// Law: one matching log suffices, at whatever position; the presence or
/// order of non-matching logs is irrelevant.
pub proof fn lemma_match_any_index(logs: Seq<RawLog>, contract: Seq<u8>, payload: Seq<u8>, i: int)
    requires
        0 <= i < logs.len(),
        log_carries_message(logs[i], contract, payload),
    ensures
        some_message_match(logs, contract, payload),
{
}

} // verus!
