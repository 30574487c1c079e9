use doc_registry::registry::DocumentVerificationContract;
use doc_registry::types::ContractError;
use doc_registry::types::DocumentRegisteredEvent;
use doc_registry::types::UserId;
use doc_registry::validate::validate_hash;
use doc_registry::validate::validate_name;

const ALICE: UserId = UserId(1);
const BOB: UserId = UserId(2);

fn hash_of(ch: &str) -> String {
    ch.repeat(64)
}

fn register(
    registry: &mut DocumentVerificationContract,
    caller: UserId,
    hash: &str,
    name: &str,
) -> Result<u64, ContractError> {
    registry.register_document(true, caller, hash_of(hash), name.to_string(), 1111, 7)
}

#[test]
fn initialize_starts_empty() {
    let registry = DocumentVerificationContract::initialize();
    assert_eq!(registry.get_document_count(), 0);
    let info = registry.verify_document(&hash_of("a"));
    assert!(!info.exists);
    assert!(info.record.is_none());
    assert!(registry.get_user_documents(ALICE).is_empty());
    assert!(!registry.is_document_name_used(ALICE, &"Deed".to_string()));
    let by_name = registry.get_document_by_name(ALICE, &"Deed".to_string());
    assert!(!by_name.exists);
    assert!(by_name.record.is_none());
}

#[test]
fn register_once_succeeds_and_count_agrees() {
    let mut registry = DocumentVerificationContract::initialize();
    assert_eq!(register(&mut registry, ALICE, "a", "Deed"), Ok(1));
    assert_eq!(registry.get_document_count(), 1);
    assert_eq!(register(&mut registry, BOB, "b", "Bill"), Ok(2));
    assert_eq!(registry.get_document_count(), 2);
}

#[test]
fn duplicate_hash_rejected_for_same_user() {
    let mut registry = DocumentVerificationContract::initialize();
    assert_eq!(register(&mut registry, ALICE, "a", "Deed"), Ok(1));
    assert_eq!(
        register(&mut registry, ALICE, "a", "Deed again"),
        Err(ContractError::DocumentAlreadyExists)
    );
    assert_eq!(registry.get_document_count(), 1);
}

#[test]
fn duplicate_hash_rejected_across_users() {
    let mut registry = DocumentVerificationContract::initialize();
    assert_eq!(register(&mut registry, ALICE, "a", "Deed"), Ok(1));
    assert_eq!(
        register(&mut registry, BOB, "a", "Other"),
        Err(ContractError::DocumentAlreadyExists)
    );
    assert_eq!(registry.get_document_count(), 1);
}

#[test]
fn verify_document_unregistered_is_absent() {
    let mut registry = DocumentVerificationContract::initialize();
    assert_eq!(register(&mut registry, ALICE, "a", "Deed"), Ok(1));
    let info = registry.verify_document(&hash_of("b"));
    assert!(!info.exists);
    assert!(info.record.is_none());
}

#[test]
fn verify_document_returns_exact_stored_record() {
    let mut registry = DocumentVerificationContract::initialize();
    let outcome =
        registry.register_document(true, ALICE, hash_of("a"), "Deed".to_string(), 123_456, 42);
    assert_eq!(outcome, Ok(1));
    let info = registry.verify_document(&hash_of("a"));
    assert!(info.exists);
    let record = info.record.expect("a registered hash carries its record");
    assert_eq!(record.document_hash, hash_of("a"));
    assert_eq!(record.document_name, "Deed");
    assert_eq!(record.registered_by, ALICE);
    assert_eq!(record.timestamp, 123_456);
    assert_eq!(record.block_number, 42);
}

#[test]
fn user_documents_keep_registration_order_and_owner() {
    let mut registry = DocumentVerificationContract::initialize();
    assert_eq!(register(&mut registry, ALICE, "a", "First"), Ok(1));
    assert_eq!(register(&mut registry, BOB, "b", "Bill"), Ok(2));
    assert_eq!(register(&mut registry, ALICE, "c", "Second"), Ok(3));

    let alice_docs = registry.get_user_documents(ALICE);
    assert_eq!(alice_docs.len(), 2);
    assert_eq!(alice_docs[0].document_name, "First");
    assert_eq!(alice_docs[0].document_hash, hash_of("a"));
    assert_eq!(alice_docs[1].document_name, "Second");
    assert_eq!(alice_docs[1].document_hash, hash_of("c"));
    assert!(alice_docs.iter().all(|record| record.registered_by == ALICE));

    let bob_docs = registry.get_user_documents(BOB);
    assert_eq!(bob_docs.len(), 1);
    assert_eq!(bob_docs[0].document_name, "Bill");
}

#[test]
fn hash_length_boundaries() {
    let mut registry = DocumentVerificationContract::initialize();
    let short = "a".repeat(63);
    let long = "a".repeat(65);
    assert_eq!(
        registry.register_document(true, ALICE, short, "Deed".to_string(), 1, 1),
        Err(ContractError::InvalidHashLength)
    );
    assert_eq!(
        registry.register_document(true, ALICE, long, "Deed".to_string(), 1, 1),
        Err(ContractError::InvalidHashLength)
    );
    assert_eq!(registry.get_document_count(), 0);
    assert_eq!(register(&mut registry, ALICE, "a", "Deed"), Ok(1));
}

#[test]
fn name_length_boundaries() {
    let mut registry = DocumentVerificationContract::initialize();
    assert_eq!(
        registry.register_document(true, ALICE, hash_of("a"), String::new(), 1, 1),
        Err(ContractError::InvalidDocumentName)
    );
    assert_eq!(
        registry.register_document(true, ALICE, hash_of("a"), "n".repeat(65), 1, 1),
        Err(ContractError::InvalidDocumentName)
    );
    assert_eq!(registry.get_document_count(), 0);
    assert_eq!(register(&mut registry, ALICE, "a", "n"), Ok(1));
    assert_eq!(
        registry.register_document(true, ALICE, hash_of("b"), "n".repeat(64), 1, 1),
        Ok(2)
    );
}

#[test]
fn validator_accepts_and_refuses_exactly() {
    assert_eq!(validate_hash(&"a".repeat(64)), Ok(()));
    assert_eq!(validate_hash(&"a".repeat(63)), Err(ContractError::InvalidHashLength));
    assert_eq!(validate_hash(&"a".repeat(65)), Err(ContractError::InvalidHashLength));
    assert_eq!(validate_name(&"n".to_string()), Ok(()));
    assert_eq!(validate_name(&"n".repeat(64)), Ok(()));
    assert_eq!(validate_name(&String::new()), Err(ContractError::InvalidDocumentName));
    assert_eq!(validate_name(&"n".repeat(65)), Err(ContractError::InvalidDocumentName));
}

#[test]
fn name_use_is_scoped_per_user() {
    let mut registry = DocumentVerificationContract::initialize();
    assert_eq!(register(&mut registry, ALICE, "a", "Deed"), Ok(1));
    assert!(registry.is_document_name_used(ALICE, &"Deed".to_string()));
    assert!(!registry.is_document_name_used(BOB, &"Deed".to_string()));

    assert_eq!(register(&mut registry, BOB, "b", "Deed"), Ok(2));
    assert!(registry.is_document_name_used(BOB, &"Deed".to_string()));
    assert!(!registry.is_document_name_used(ALICE, &"Other".to_string()));
}

#[test]
fn document_by_name_earliest_match_wins() {
    let mut registry = DocumentVerificationContract::initialize();
    assert_eq!(register(&mut registry, ALICE, "a", "Deed"), Ok(1));
    assert_eq!(register(&mut registry, ALICE, "b", "Deed"), Ok(2));
    let info = registry.get_document_by_name(ALICE, &"Deed".to_string());
    assert!(info.exists);
    let record = info.record.expect("a used name finds a record");
    assert_eq!(record.document_hash, hash_of("a"));

    let absent = registry.get_document_by_name(ALICE, &"Missing".to_string());
    assert!(!absent.exists);
    assert!(absent.record.is_none());
}

#[test]
fn registration_event_carries_the_particulars() {
    let event =
        DocumentRegisteredEvent::new(hash_of("a"), "Deed".to_string(), ALICE, 123);
    assert_eq!(event.document_hash, hash_of("a"));
    assert_eq!(event.document_name, "Deed");
    assert_eq!(event.registered_by, ALICE);
    assert_eq!(event.timestamp, 123);
}

#[test]
fn full_scenario() {
    let mut registry = DocumentVerificationContract::initialize();
    assert_eq!(register(&mut registry, ALICE, "a", "Deed"), Ok(1));
    assert_eq!(
        register(&mut registry, BOB, "a", "Other"),
        Err(ContractError::DocumentAlreadyExists)
    );
    assert_eq!(registry.get_document_count(), 1);
    assert_eq!(register(&mut registry, ALICE, "b", "Deed2"), Ok(2));
    let alice_docs = registry.get_user_documents(ALICE);
    assert_eq!(alice_docs.len(), 2);
    assert_eq!(alice_docs[0].document_name, "Deed");
    assert_eq!(alice_docs[1].document_name, "Deed2");
    assert_eq!(registry.get_document_count(), 2);
}
