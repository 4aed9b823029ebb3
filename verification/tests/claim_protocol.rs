use claim_core::coordinator::begin_claim;
use claim_core::coordinator::decide_broadcast;
use claim_core::coordinator::decide_record;
use claim_core::coordinator::decide_reservation;
use claim_core::coordinator::finish_claim;
use claim_core::coordinator::BroadcastOutcome;
use claim_core::coordinator::BroadcastRequest;
use claim_core::coordinator::ClaimError;
use claim_core::coordinator::StoreRecordEvent;
use claim_core::coordinator::StoreReserveEvent;
use claim_core::coordinator::GRANT_AMOUNT_BASE_UNITS;
use claim_core::ledger::ClaimStatus;
use claim_core::ledger::Ledger;
use claim_core::ledger::RecordOutcome;
use claim_core::ledger::ReserveOutcome;

const VALID_WALLET: &str = "0x0123456789abcdef0123456789abcdef01234567";

fn expect_request(r: Result<BroadcastRequest, ClaimError>) -> BroadcastRequest {
    match r {
        Ok(req) => req,
        Err(e) => panic!("expected a broadcast request, got {:?}", e),
    }
}

#[test]
fn grant_amount_is_one_hundred_tokens_of_eighteen_decimals() {
    assert_eq!(GRANT_AMOUNT_BASE_UNITS, 100 * 10u128.pow(18));
}

#[test]
fn scenario_full_claim_succeeds_on_empty_ledger() {
    let mut ledger = Ledger::new();
    let nullifier = "n1".to_string();
    let wallet = VALID_WALLET.to_string();

    let req = expect_request(begin_claim(&mut ledger, &nullifier, &wallet, 1));
    assert_eq!(req.to, wallet);
    assert_eq!(req.amount, GRANT_AMOUNT_BASE_UNITS);

    let outcome = BroadcastOutcome::Accepted("0xabc".to_string());
    let response = finish_claim(&mut ledger, &nullifier, outcome, 2);
    assert_eq!(response, Ok("0xabc".to_string()));

    let record = ledger.lookup(&nullifier).expect("record must exist");
    assert_eq!(record.status, ClaimStatus::Broadcast);
    assert_eq!(record.tx_id, Some("0xabc".to_string()));
    assert_eq!(record.wallet_address, wallet);
    assert_eq!(record.created_at, 1);
    assert_eq!(record.claimed_at, Some(2));
}

#[test]
fn scenario_second_claim_with_same_nullifier_is_rejected() {
    let mut ledger = Ledger::new();
    let nullifier = "n1".to_string();
    let wallet = VALID_WALLET.to_string();

    let req = expect_request(begin_claim(&mut ledger, &nullifier, &wallet, 1));
    let outcome = BroadcastOutcome::Accepted("0xabc".to_string());
    assert_eq!(finish_claim(&mut ledger, &nullifier, outcome, 2), Ok("0xabc".to_string()));
    drop(req);

    let again = begin_claim(&mut ledger, &nullifier, &wallet, 3);
    assert!(matches!(again, Err(ClaimError::AlreadyClaimed)));

    let record = ledger.lookup(&nullifier).expect("record must exist");
    assert_eq!(record.tx_id, Some("0xabc".to_string()));
    assert_eq!(record.claimed_at, Some(2));
}

#[test]
fn scenario_malformed_address_consumes_nullifier_without_side_effect() {
    let mut ledger = Ledger::new();
    let nullifier = "n2".to_string();
    let bad_wallet = "not-an-address".to_string();

    let r = begin_claim(&mut ledger, &nullifier, &bad_wallet, 1);
    assert!(matches!(r, Err(ClaimError::InvalidAddress)));

    let record = ledger.lookup(&nullifier).expect("reservation must remain");
    assert_eq!(record.status, ClaimStatus::Reserved);
    assert_eq!(record.tx_id, None);

    let retry = begin_claim(&mut ledger, &nullifier, &VALID_WALLET.to_string(), 2);
    assert!(matches!(retry, Err(ClaimError::AlreadyClaimed)));
}

#[test]
fn scenario_network_failure_leaves_record_reserved() {
    let mut ledger = Ledger::new();
    let nullifier = "n3".to_string();
    let wallet = VALID_WALLET.to_string();

    let req = expect_request(begin_claim(&mut ledger, &nullifier, &wallet, 1));
    drop(req);
    let r = finish_claim(&mut ledger, &nullifier, BroadcastOutcome::NetworkUnavailable, 2);
    assert_eq!(r, Err(ClaimError::TransactionError));

    let record = ledger.lookup(&nullifier).expect("record must exist");
    assert_eq!(record.status, ClaimStatus::Reserved);
    assert_eq!(record.tx_id, None);
    assert_eq!(record.claimed_at, None);
}

#[test]
fn scenario_storage_failure_after_broadcast_is_not_success() {
    let mut ledger = Ledger::new();
    let nullifier = "n4".to_string();
    let wallet = VALID_WALLET.to_string();

    let req = expect_request(begin_claim(&mut ledger, &nullifier, &wallet, 1));
    drop(req);
    // The broadcast was accepted remotely, but the store failed while
    // recording the identifier: the caller must not be told success.
    let broadcast = decide_broadcast(BroadcastOutcome::Accepted("0xdef".to_string()));
    let tx_id = broadcast.expect("accepted broadcast yields the identifier");
    let r = decide_record(StoreRecordEvent::StorageUnavailable, tx_id);
    assert_eq!(r, Err(ClaimError::TransactionError));
}

#[test]
fn reservation_is_created_exactly_once() {
    let mut ledger = Ledger::new();
    let nullifier = "n5".to_string();
    let first_wallet = VALID_WALLET.to_string();
    let second_wallet = "0xffffffffffffffffffffffffffffffffffffffff".to_string();

    assert_eq!(ledger.try_reserve(&nullifier, &first_wallet, 1), ReserveOutcome::Created);
    assert_eq!(ledger.try_reserve(&nullifier, &second_wallet, 2), ReserveOutcome::AlreadyExists);
    assert_eq!(ledger.try_reserve(&nullifier, &second_wallet, 3), ReserveOutcome::AlreadyExists);

    let record = ledger.lookup(&nullifier).expect("record must exist");
    assert_eq!(record.wallet_address, first_wallet);
    assert_eq!(record.created_at, 1);
}

#[test]
fn tx_id_is_never_overwritten() {
    let mut ledger = Ledger::new();
    let nullifier = "n6".to_string();
    let wallet = VALID_WALLET.to_string();

    assert_eq!(ledger.try_reserve(&nullifier, &wallet, 1), ReserveOutcome::Created);
    let first_tx = "0xaaa".to_string();
    let second_tx = "0xbbb".to_string();
    assert_eq!(ledger.record_broadcast(&nullifier, &first_tx, 2), RecordOutcome::Recorded);
    assert_eq!(ledger.record_broadcast(&nullifier, &second_tx, 3), RecordOutcome::Conflict);
    assert_eq!(ledger.record_broadcast(&nullifier, &first_tx, 4), RecordOutcome::Conflict);

    let record = ledger.lookup(&nullifier).expect("record must exist");
    assert_eq!(record.tx_id, Some("0xaaa".to_string()));
    assert_eq!(record.claimed_at, Some(2));
}

#[test]
fn recording_for_unknown_nullifier_reports_not_found() {
    let mut ledger = Ledger::new();
    let nullifier = "n7".to_string();
    let tx = "0xabc".to_string();
    assert_eq!(ledger.record_broadcast(&nullifier, &tx, 1), RecordOutcome::NotFound);
    assert!(ledger.lookup(&nullifier).is_none());

    let r = finish_claim(&mut ledger, &nullifier, BroadcastOutcome::Accepted(tx), 2);
    assert_eq!(r, Err(ClaimError::TransactionError));
}

#[test]
fn broadcaster_rejection_leaves_record_reserved() {
    let mut ledger = Ledger::new();
    let nullifier = "n8".to_string();
    let wallet = VALID_WALLET.to_string();

    let req = expect_request(begin_claim(&mut ledger, &nullifier, &wallet, 1));
    drop(req);
    let r = finish_claim(&mut ledger, &nullifier, BroadcastOutcome::Rejected, 2);
    assert_eq!(r, Err(ClaimError::TransactionError));
    let r2 = finish_claim(&mut ledger, &nullifier, BroadcastOutcome::InvalidRecipient, 3);
    assert_eq!(r2, Err(ClaimError::TransactionError));

    let record = ledger.lookup(&nullifier).expect("record must exist");
    assert_eq!(record.status, ClaimStatus::Reserved);
    assert_eq!(record.tx_id, None);
}

#[test]
fn bare_hex_address_is_accepted_for_broadcast() {
    let mut ledger = Ledger::new();
    let nullifier = "n9".to_string();
    let wallet = "0123456789ABCDEF0123456789abcdef01234567".to_string();

    let req = expect_request(begin_claim(&mut ledger, &nullifier, &wallet, 1));
    assert_eq!(req.to, wallet);
    assert_eq!(req.amount, GRANT_AMOUNT_BASE_UNITS);
}

#[test]
fn reservation_decision_maps_every_store_event() {
    assert_eq!(decide_reservation(StoreReserveEvent::Created), Ok(()));
    assert_eq!(
        decide_reservation(StoreReserveEvent::AlreadyExists),
        Err(ClaimError::AlreadyClaimed)
    );
    assert_eq!(
        decide_reservation(StoreReserveEvent::StorageUnavailable),
        Err(ClaimError::InternalError)
    );
}

#[test]
fn broadcast_decision_maps_every_outcome() {
    assert_eq!(
        decide_broadcast(BroadcastOutcome::Accepted("0x1".to_string())),
        Ok("0x1".to_string())
    );
    assert_eq!(
        decide_broadcast(BroadcastOutcome::InvalidRecipient),
        Err(ClaimError::TransactionError)
    );
    assert_eq!(
        decide_broadcast(BroadcastOutcome::NetworkUnavailable),
        Err(ClaimError::TransactionError)
    );
    assert_eq!(decide_broadcast(BroadcastOutcome::Rejected), Err(ClaimError::TransactionError));
}

#[test]
fn record_decision_returns_identifier_only_when_recorded() {
    assert_eq!(
        decide_record(StoreRecordEvent::Recorded, "0x2".to_string()),
        Ok("0x2".to_string())
    );
    assert_eq!(
        decide_record(StoreRecordEvent::NotFound, "0x2".to_string()),
        Err(ClaimError::TransactionError)
    );
    assert_eq!(
        decide_record(StoreRecordEvent::Conflict, "0x2".to_string()),
        Err(ClaimError::TransactionError)
    );
    assert_eq!(
        decide_record(StoreRecordEvent::StorageUnavailable, "0x2".to_string()),
        Err(ClaimError::TransactionError)
    );
}

#[test]
fn error_kinds_map_to_status_codes() {
    assert_eq!(ClaimError::AlreadyClaimed.status_code(), 409);
    assert_eq!(ClaimError::InvalidAddress.status_code(), 400);
    assert_eq!(ClaimError::TransactionError.status_code(), 500);
    assert_eq!(ClaimError::InternalError.status_code(), 500);
}

#[test]
fn error_messages_are_generic() {
    assert_eq!(ClaimError::AlreadyClaimed.message(), "This identity has already claimed.");
    assert_eq!(ClaimError::InvalidAddress.message(), "Invalid wallet address.");
    assert_eq!(ClaimError::TransactionError.message(), "Transaction failed.");
    assert_eq!(ClaimError::InternalError.message(), "An internal error occurred.");
}
