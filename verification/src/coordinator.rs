//! The claim coordinator: the three-step protocol that turns one claim
//! request into at most one grant.
//!
//! A claim proceeds in strict order: reserve the nullifier, validate the
//! recipient and hand a transfer order to the broadcaster, then record the
//! transaction identifier. Each step can fail independently; the policy
//! here decides, for every observable outcome of the surrounding store and
//! network, what the caller is told and what the ledger must look like
//! afterwards. Success is reported only when the identifier is durably
//! recorded — never on a broadcast alone.

use vstd::prelude::*;
use crate::address::valid_address;
use crate::address::validate_address;
use crate::ledger::Ledger;
use crate::ledger::ReserveOutcome;
use crate::ledger::RecordOutcome;
use crate::ledger::record_next;
use crate::ledger::record_outcome;
use crate::ledger::reserve_next;

verus! {

/// Size of one grant, in the token's smallest unit: 100 tokens of 18
/// decimals. Fixed by configuration, never caller-supplied.
pub const GRANT_AMOUNT_BASE_UNITS: u128 = 100_000_000_000_000_000_000;

/// Caller-visible failure kinds of one claim attempt.
#[derive(Clone, Copy, PartialEq, Eq, Structural, Debug)]
pub enum ClaimError {
    /// The nullifier was already reserved; a business outcome, not a fault.
    AlreadyClaimed,
    /// The recipient address is malformed; a caller input fault.
    InvalidAddress,
    /// The broadcast or the durable-record step failed.
    TransactionError,
    /// The store was unavailable when reserving.
    InternalError,
}

impl ClaimError {
    /// The HTTP status code that reports this kind.
    pub fn status_code(&self) -> (code: u16)
        ensures
            self is AlreadyClaimed ==> code == 409,
            self is InvalidAddress ==> code == 400,
            self is TransactionError ==> code == 500,
            self is InternalError ==> code == 500,
    {
        match self {
            ClaimError::AlreadyClaimed => 409,
            ClaimError::InvalidAddress => 400,
            ClaimError::TransactionError => 500,
            ClaimError::InternalError => 500,
        }
    }

    /// The message that reports this kind. Infrastructure faults are
    /// deliberately generic: no internal error text crosses the boundary.
    pub fn message(&self) -> (m: String)
        ensures
            self is AlreadyClaimed ==> m@ == "This identity has already claimed."@,
            self is InvalidAddress ==> m@ == "Invalid wallet address."@,
            self is TransactionError ==> m@ == "Transaction failed."@,
            self is InternalError ==> m@ == "An internal error occurred."@,
    {
        match self {
            ClaimError::AlreadyClaimed => "This identity has already claimed.".to_owned(),
            ClaimError::InvalidAddress => "Invalid wallet address.".to_owned(),
            ClaimError::TransactionError => "Transaction failed.".to_owned(),
            ClaimError::InternalError => "An internal error occurred.".to_owned(),
        }
    }
}

/// What the durable store reported for a reservation, as the surrounding
/// process observed it.
#[derive(Clone, Copy, PartialEq, Eq, Structural, Debug)]
pub enum StoreReserveEvent {
    /// A new record was created.
    Created,
    /// The uniqueness constraint rejected the insert.
    AlreadyExists,
    /// The store could not be reached or failed.
    StorageUnavailable,
}

/// What the durable store reported for recording a broadcast.
#[derive(Clone, Copy, PartialEq, Eq, Structural, Debug)]
pub enum StoreRecordEvent {
    /// The record now carries the transaction identifier.
    Recorded,
    /// No record exists for the nullifier.
    NotFound,
    /// The record already carried an identifier.
    Conflict,
    /// The store could not be reached or failed.
    StorageUnavailable,
}

/// What the transfer broadcaster reported.
#[derive(Debug)]
pub enum BroadcastOutcome {
    /// The transfer was accepted for processing; the payload is the
    /// pending-transaction identifier. Acceptance, not finality.
    Accepted(String),
    /// The remote system judged the recipient malformed.
    InvalidRecipient,
    /// The network was unreachable, or the attempt timed out. The transfer
    /// may or may not have been accepted remotely.
    NetworkUnavailable,
    /// The remote system refused the transfer.
    Rejected,
}

/// A validated transfer order for the broadcaster. Constructing one is the
/// only way a recipient reaches the broadcaster, and construction checks
/// the address, so a malformed address never produces a side effect.
pub struct BroadcastRequest {
    /// The validated recipient address.
    pub to: String,
    /// The fixed grant size.
    pub amount: u128,
}

/// Decides the claim after the reservation step: only a freshly created
/// reservation may proceed; a duplicate fails as `AlreadyClaimed` with no
/// further action, and a store fault as `InternalError`.
pub fn decide_reservation(ev: StoreReserveEvent) -> (r: Result<(), ClaimError>)
    ensures
        r is Ok <==> ev is Created,
        ev is AlreadyExists ==> r == Result::<(), ClaimError>::Err(ClaimError::AlreadyClaimed),
        ev is StorageUnavailable ==> r == Result::<(), ClaimError>::Err(ClaimError::InternalError),
{
    match ev {
        StoreReserveEvent::Created => Result::Ok(()),
        StoreReserveEvent::AlreadyExists => Result::Err(ClaimError::AlreadyClaimed),
        StoreReserveEvent::StorageUnavailable => Result::Err(ClaimError::InternalError),
    }
}

/// Validates the recipient and builds the transfer order for the fixed
/// grant amount; a malformed address fails as `InvalidAddress` and nothing
/// is handed to the broadcaster.
pub fn prepare_broadcast(wallet_address: &String) -> (r: Result<BroadcastRequest, ClaimError>)
    ensures
        r is Ok <==> valid_address(wallet_address@),
        r matches Result::Ok(req) ==> req.to@ == wallet_address@ && req.amount
            == GRANT_AMOUNT_BASE_UNITS,
        !valid_address(wallet_address@) ==> r == Result::<BroadcastRequest, ClaimError>::Err(
            ClaimError::InvalidAddress,
        ),
{
    if validate_address(wallet_address.as_str()) {
        Result::Ok(
            BroadcastRequest { to: wallet_address.clone(), amount: GRANT_AMOUNT_BASE_UNITS },
        )
    } else {
        Result::Err(ClaimError::InvalidAddress)
    }
}

/// Decides the claim after the broadcast step: any failure — including a
/// timeout, where the transfer may still have been accepted remotely —
/// surfaces as `TransactionError`, and no retry happens within the claim.
pub fn decide_broadcast(outcome: BroadcastOutcome) -> (r: Result<String, ClaimError>)
    ensures
        r is Ok <==> outcome is Accepted,
        outcome matches BroadcastOutcome::Accepted(t) ==> r == Result::<String, ClaimError>::Ok(t),
        !(outcome is Accepted) ==> r == Result::<String, ClaimError>::Err(
            ClaimError::TransactionError,
        ),
{
    match outcome {
        BroadcastOutcome::Accepted(t) => Result::Ok(t),
        BroadcastOutcome::InvalidRecipient => Result::Err(ClaimError::TransactionError),
        BroadcastOutcome::NetworkUnavailable => Result::Err(ClaimError::TransactionError),
        BroadcastOutcome::Rejected => Result::Err(ClaimError::TransactionError),
    }
}

/// Decides the claim after the durable-record step: the transaction
/// identifier is returned exactly when the store confirmed it durable.
/// Even though a transfer was broadcast, anything else — a fault, a missing
/// record, an identifier already present — is reported as
/// `TransactionError`, never as success.
pub fn decide_record(ev: StoreRecordEvent, tx_id: String) -> (r: Result<String, ClaimError>)
    ensures
        r is Ok <==> ev is Recorded,
        ev is Recorded ==> r == Result::<String, ClaimError>::Ok(tx_id),
        !(ev is Recorded) ==> r == Result::<String, ClaimError>::Err(ClaimError::TransactionError),
{
    match ev {
        StoreRecordEvent::Recorded => Result::Ok(tx_id),
        StoreRecordEvent::NotFound => Result::Err(ClaimError::TransactionError),
        StoreRecordEvent::Conflict => Result::Err(ClaimError::TransactionError),
        StoreRecordEvent::StorageUnavailable => Result::Err(ClaimError::TransactionError),
    }
}

/// Steps one claim up to the broadcast: reserves the nullifier, then
/// validates the recipient. The reservation is deliberately not rolled
/// back when validation fails: a malformed-address claim consumes its
/// nullifier.
pub fn begin_claim(ledger: &mut Ledger, nullifier: &String, wallet_address: &String, now: u64) -> (r:
    Result<BroadcastRequest, ClaimError>)
    requires
        old(ledger).wf(),
    ensures
        final(ledger).wf(),
        final(ledger)@ == reserve_next(old(ledger)@, nullifier@, wallet_address@, now),
        old(ledger)@.contains_key(nullifier@) ==> r == Result::<BroadcastRequest, ClaimError>::Err(
            ClaimError::AlreadyClaimed,
        ),
        !old(ledger)@.contains_key(nullifier@) && !valid_address(wallet_address@) ==> r == Result::<
            BroadcastRequest,
            ClaimError,
        >::Err(ClaimError::InvalidAddress),
        r is Ok <==> !old(ledger)@.contains_key(nullifier@) && valid_address(wallet_address@),
        r matches Result::Ok(req) ==> req.to@ == wallet_address@ && req.amount
            == GRANT_AMOUNT_BASE_UNITS,
{
    let outcome = ledger.try_reserve(nullifier, wallet_address, now);
    match outcome {
        ReserveOutcome::AlreadyExists => Result::Err(ClaimError::AlreadyClaimed),
        ReserveOutcome::Created => prepare_broadcast(wallet_address),
    }
}

/// Steps one claim past the broadcast: on acceptance, records the
/// identifier and answers with it exactly when the record became durable;
/// on any broadcast failure, leaves the ledger unchanged — the record
/// stays `Reserved` for out-of-band reconciliation — and fails the claim.
pub fn finish_claim(ledger: &mut Ledger, nullifier: &String, outcome: BroadcastOutcome, now: u64) -> (r:
    Result<String, ClaimError>)
    requires
        old(ledger).wf(),
    ensures
        final(ledger).wf(),
        !(outcome is Accepted) ==> final(ledger)@ == old(ledger)@ && r == Result::<
            String,
            ClaimError,
        >::Err(ClaimError::TransactionError),
        outcome matches BroadcastOutcome::Accepted(t) ==> final(ledger)@ == record_next(
            old(ledger)@,
            nullifier@,
            t@,
            now,
        ),
        r is Ok ==> record_outcome(old(ledger)@, nullifier@) is Recorded,
        outcome matches BroadcastOutcome::Accepted(t) ==> (record_outcome(
            old(ledger)@,
            nullifier@,
        ) is Recorded ==> r == Result::<String, ClaimError>::Ok(t)),
        outcome matches BroadcastOutcome::Accepted(t) ==> (!(record_outcome(
            old(ledger)@,
            nullifier@,
        ) is Recorded) ==> r == Result::<String, ClaimError>::Err(ClaimError::TransactionError)),
{
    match outcome {
        BroadcastOutcome::Accepted(t) => {
            let recorded = ledger.record_broadcast(nullifier, &t, now);
            match recorded {
                RecordOutcome::Recorded => Result::Ok(t),
                RecordOutcome::NotFound => Result::Err(ClaimError::TransactionError),
                RecordOutcome::Conflict => Result::Err(ClaimError::TransactionError),
            }
        },
        BroadcastOutcome::InvalidRecipient => Result::Err(ClaimError::TransactionError),
        BroadcastOutcome::NetworkUnavailable => Result::Err(ClaimError::TransactionError),
        BroadcastOutcome::Rejected => Result::Err(ClaimError::TransactionError),
    }
}

} // verus!
