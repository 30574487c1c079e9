//! The registry's data types and their mathematical views.

use vstd::prelude::*;

verus! {

/// An identity that can register documents, reduced to the number that
/// tells it apart from every other identity. The registry never inspects an
/// identity beyond comparing it for equality.
#[derive(Clone, Copy, Debug, PartialEq, Eq, Structural)]
pub struct UserId(pub u64);

/// Everything a registration can be refused for. Queries never fail: absence
/// comes back as `exists == false`, an empty list, or `false`.
#[derive(Clone, Copy, Debug, PartialEq, Eq, Structural)]
pub enum ContractError {
    /// The document hash is not exactly 64 characters long.
    InvalidHashLength,
    /// The document name is empty or longer than 64 characters.
    InvalidDocumentName,
    /// The document hash is already registered, by whatever identity.
    DocumentAlreadyExists,
}

/// One registered document: its hash, the name it was registered under, who
/// registered it, and when. Immutable once created.
#[derive(Debug, PartialEq, Eq)]
pub struct DocumentRecord {
    /// The 64-character hash that identifies the document's content.
    pub document_hash: String,
    /// The name the registrant gave the document, 1 to 64 characters.
    pub document_name: String,
    /// The identity that registered the document.
    pub registered_by: UserId,
    /// Seconds since the epoch at registration, supplied by the host's clock.
    pub timestamp: u64,
    /// The host's sequence number at registration.
    pub block_number: u32,
}

/// The mathematical content of a [`DocumentRecord`]: the two strings as
/// character sequences, the rest as it stands.
#[verifier::ext_equal]
pub ghost struct DocumentRecordView {
    pub document_hash: Seq<char>,
    pub document_name: Seq<char>,
    pub registered_by: UserId,
    pub timestamp: u64,
    pub block_number: u32,
}

impl View for DocumentRecord {
    type V = DocumentRecordView;

    open spec fn view(&self) -> DocumentRecordView {
        DocumentRecordView {
            document_hash: self.document_hash@,
            document_name: self.document_name@,
            registered_by: self.registered_by,
            timestamp: self.timestamp,
            block_number: self.block_number,
        }
    }
}

impl Clone for DocumentRecord {
    fn clone(&self) -> (other: Self)
        ensures
            other == *self,
    {
        DocumentRecord {
            document_hash: self.document_hash.clone(),
            document_name: self.document_name.clone(),
            registered_by: self.registered_by,
            timestamp: self.timestamp,
            block_number: self.block_number,
        }
    }
}

/// The shape of every lookup result: `record` is present iff `exists` is true.
#[derive(Debug, PartialEq, Eq)]
pub struct DocumentInfo {
    pub exists: bool,
    pub record: Option<DocumentRecord>,
}

/// The notification a successful registration calls for. The registry does
/// not publish it itself: publication is the host's, and best-effort relative
/// to the registry's own state change.
#[derive(Debug, PartialEq, Eq)]
pub struct DocumentRegisteredEvent {
    pub document_hash: String,
    pub document_name: String,
    pub registered_by: UserId,
    pub timestamp: u64,
}

impl DocumentRegisteredEvent {
    /// Builds the event for a registration with these particulars.
    pub fn new(
        document_hash: String,
        document_name: String,
        registered_by: UserId,
        timestamp: u64,
    ) -> (event: Self)
        ensures
            event.document_hash@ == document_hash@,
            event.document_name@ == document_name@,
            event.registered_by == registered_by,
            event.timestamp == timestamp,
    {
        DocumentRegisteredEvent { document_hash, document_name, registered_by, timestamp }
    }
}

} // verus!
