//! The environment builder's validation steps: everything the host decides
//! between its network reads.  The caller fetches the transaction receipt,
//! runs the preflight event query and materializes the execution context;
//! this module checks the receipt, extracts the first matching event,
//! enforces the block ordering, confirms the preflight saw the same
//! payload, and assembles the framed guest input.

use vstd::prelude::*;
use crate::addr::{Address, univ_of_addr};
use crate::error::RelayError;
use crate::event::{RawLog, is_message_log, log_carries_message};
use crate::input::{GuestInput, GuestInputView, guest_input_bytes, framed};

verus! {

/// A transaction receipt as observed from the source chain's provider:
/// the block the transaction executed in, if it was included, and the
/// transaction's logs.
#[derive(Debug)]
pub struct TxReceipt {
    pub block_number: Option<u64>,
    pub logs: Vec<RawLog>,
}

impl TxReceipt {
    pub open spec fn wf(&self) -> bool {
        forall|i: int| 0 <= i < self.logs@.len() ==> self.logs@[i].wf()
    }
}

/// No log in `logs` is a `SendTransceiverMessage` event of `contract`.
pub open spec fn no_message_log(logs: Seq<RawLog>, contract: Seq<u8>) -> bool {
    forall|i: int| 0 <= i < logs.len() ==> !is_message_log(logs[i], contract)
}

/// `i` is the first index whose log is a `SendTransceiverMessage` event
/// of `contract`.
pub open spec fn first_message_at(logs: Seq<RawLog>, contract: Seq<u8>, i: int) -> bool {
    &&& 0 <= i < logs.len()
    &&& is_message_log(logs[i], contract)
    &&& forall|j: int| 0 <= j < i ==> !is_message_log(logs[j], contract)
}

/// Validates the receipt and extracts the execution block and the first
/// matching event's payload.  Exactly one outcome holds: `NotFound` when
/// there is no receipt; `NotIncluded` when the receipt carries no block
/// number; `InvalidCommitmentBlock` when the commitment block lies before
/// the execution block; `EventNotFound` when no log of the receipt is a
/// matching event of the source contract; `EmptyMessage` when the first
/// matching event carries an empty payload; otherwise the execution block
/// and the first matching event's non-empty payload.
pub fn extract_message(
    receipt: &Option<TxReceipt>,
    contract_addr: &Address,
    commitment_block: u64,
) -> (r: Result<(u64, Vec<u8>), RelayError>)
    requires
        contract_addr.wf(),
        receipt matches Some(rc) ==> rc.wf(),
    ensures
        match r {
            Ok(p) => {
                &&& receipt matches Some(rc) && rc.block_number == Some(p.0) && commitment_block
                    >= p.0 && exists|i: int|
                    first_message_at(rc.logs@, contract_addr@, i) && log_carries_message(
                        rc.logs@[i],
                        contract_addr@,
                        p.1@,
                    )
                &&& p.1@.len() > 0
            },
            Err(e) => match e {
                RelayError::NotFound => receipt is None,
                RelayError::NotIncluded => receipt matches Some(rc) && rc.block_number is None,
                RelayError::InvalidCommitmentBlock => receipt matches Some(rc)
                    && rc.block_number matches Some(b) && commitment_block < b,
                RelayError::EventNotFound => receipt matches Some(rc) && rc.block_number matches
                    Some(b) && commitment_block >= b && no_message_log(rc.logs@, contract_addr@),
                RelayError::EmptyMessage => receipt matches Some(rc) && rc.block_number matches
                    Some(b) && commitment_block >= b && exists|i: int|
                    first_message_at(rc.logs@, contract_addr@, i) && log_carries_message(
                        rc.logs@[i],
                        contract_addr@,
                        Seq::<u8>::empty(),
                    ),
                _ => false,
            },
        },
{
    let rc = match receipt {
        None => {
            return Err(RelayError::NotFound);
        },
        Some(rc) => rc,
    };
    let execution_block = match rc.block_number {
        None => {
            return Err(RelayError::NotIncluded);
        },
        Some(b) => b,
    };
    if commitment_block < execution_block {
        return Err(RelayError::InvalidCommitmentBlock);
    }
    let mut i: usize = 0;
    while i < rc.logs.len()
        invariant
            i <= rc.logs@.len(),
            *receipt == Some(*rc),
            rc.wf(),
            rc.block_number == Some(execution_block),
            commitment_block >= execution_block,
            contract_addr.wf(),
            forall|j: int| 0 <= j < i ==> !is_message_log(rc.logs@[j], contract_addr@),
        decreases rc.logs@.len() - i,
    {
        let log = &rc.logs[i];
        proof {
            assert(rc.logs@[i as int].wf());
        }
        match crate::event::decode_message_log(log, contract_addr) {
            Some(p) => {
                if p.len() == 0 {
                    proof {
                        assert(p@ =~= Seq::<u8>::empty());
                        assert(first_message_at(rc.logs@, contract_addr@, i as int));
                    }
                    return Err(RelayError::EmptyMessage);
                }
                proof {
                    assert(first_message_at(rc.logs@, contract_addr@, i as int));
                }
                return Ok((execution_block, p));
            },
            None => {},
        }
        i = i + 1;
    }
    Err(RelayError::EventNotFound)
}

/// Confirms that the preflight query saw the payload derived from the
/// receipt: some returned payload equals the expected one, else
/// `CommitmentMismatch`.
pub fn confirm_preflight(payloads: &Vec<Vec<u8>>, expected: &Vec<u8>) -> (r: Result<
    (),
    RelayError,
>)
    ensures
        match r {
            Ok(u) => exists|i: int| 0 <= i < payloads@.len() && payloads@[i]@ == expected@,
            Err(e) => {
                &&& e == RelayError::CommitmentMismatch
                &&& forall|i: int| 0 <= i < payloads@.len() ==> payloads@[i]@ != expected@
            },
        },
{
    let mut i: usize = 0;
    while i < payloads.len()
        invariant
            i <= payloads@.len(),
            forall|j: int| 0 <= j < i ==> payloads@[j]@ != expected@,
        decreases payloads@.len() - i,
    {
        if crate::bytes::bytes_eq(&payloads[i], expected) {
            return Ok(());
        }
        i = i + 1;
    }
    Err(RelayError::CommitmentMismatch)
}

/// Assembles and serializes the full-message guest input from the
/// materialized commitment-building input, the source contract address
/// (converted to its universal form) and the verified message, and wraps
/// it in the length-prefixed frame the oracle expects.  Total: every such
/// input assembles, to exactly its specified bytes.
pub fn assemble_input(
    evm_input: Vec<u8>,
    contract_addr: &Address,
    encoded_message: Vec<u8>,
) -> (r: Result<Vec<u8>, RelayError>)
    requires
        contract_addr.wf(),
    ensures
        match r {
            Ok(b) => b@ == framed(
                guest_input_bytes(
                    GuestInputView::FullMessage {
                        commitment: evm_input@,
                        contract_addr: univ_of_addr(contract_addr@),
                        encoded_message: encoded_message@,
                    },
                ),
            ),
            Err(_) => false,
        },
{
    let univ = crate::addr::to_wormhole_address(contract_addr);
    let input = GuestInput::FullMessage {
        commitment: evm_input,
        contract_addr: univ,
        encoded_message,
    };
    let serialized = match input.serialize() {
        Ok(b) => b,
        Err(e) => {
            return Err(e);
        },
    };
    Ok(crate::input::write_frame(&serialized))
}

} // verus!
