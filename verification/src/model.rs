//! The registry's mathematical model.
//!
//! A registry is modelled by the sequence of record views in registration
//! order (the primary index is that sequence keyed by hash; the per-user
//! lists are derived from it) together with the registration count. Every
//! public contract speaks in the vocabulary below.

use vstd::prelude::*;

use crate::scan::first_match;
use crate::types::DocumentRecord;
use crate::types::DocumentRecordView;
use crate::types::UserId;

verus! {

/// The views of a sequence of records, in the same order.
pub open spec fn views_of(records: Seq<DocumentRecord>) -> Seq<DocumentRecordView> {
    records.map_values(|record: DocumentRecord| record@)
}

/// A hash is valid exactly when it is 64 characters long. The character set
/// is deliberately not constrained.
pub open spec fn valid_hash(hash: Seq<char>) -> bool {
    hash.len() == 64
}

/// A name is valid exactly when it is 1 to 64 characters long.
pub open spec fn valid_name(name: Seq<char>) -> bool {
    1 <= name.len() <= 64
}

/// Picks records carrying this hash.
pub open spec fn has_hash(hash: Seq<char>) -> spec_fn(DocumentRecordView) -> bool {
    |record: DocumentRecordView| record.document_hash == hash
}

/// Picks records carrying this name.
pub open spec fn has_name(name: Seq<char>) -> spec_fn(DocumentRecordView) -> bool {
    |record: DocumentRecordView| record.document_name == name
}

/// Picks records this user registered.
pub open spec fn by_user(user: UserId) -> spec_fn(DocumentRecordView) -> bool {
    |record: DocumentRecordView| record.registered_by == user
}

/// Whether some record in `docs` carries `hash`. Uniqueness of hashes is a
/// registry invariant, not part of this definition.
pub open spec fn hash_registered(docs: Seq<DocumentRecordView>, hash: Seq<char>) -> bool {
    exists|i: int| 0 <= i < docs.len() && docs[i].document_hash == hash
}

/// The first record in `docs` carrying `hash`; under the registry's
/// uniqueness invariant, the only one.
pub open spec fn find_record(docs: Seq<DocumentRecordView>, hash: Seq<char>) -> Option<
    DocumentRecordView,
> {
    first_match(docs, has_hash(hash))
}

/// The records `user` registered, in registration order.
pub open spec fn user_records(docs: Seq<DocumentRecordView>, user: UserId) -> Seq<
    DocumentRecordView,
> {
    docs.filter(by_user(user))
}

/// The hashes `user` registered, in registration order.
pub open spec fn user_hash_list(docs: Seq<DocumentRecordView>, user: UserId) -> Seq<Seq<char>> {
    user_records(docs, user).map_values(|record: DocumentRecordView| record.document_hash)
}

/// Whether `user` has registered some document under `name`. The scope is one
/// user's documents: another user's use of the same name does not count.
pub open spec fn name_used(docs: Seq<DocumentRecordView>, user: UserId, name: Seq<char>) -> bool {
    exists|i: int|
        0 <= i < user_records(docs, user).len() && user_records(docs, user)[i].document_name
            == name
}

/// The earliest-registered of `user`'s records named `name`, if any.
pub open spec fn find_named(docs: Seq<DocumentRecordView>, user: UserId, name: Seq<char>) -> Option<
    DocumentRecordView,
> {
    first_match(user_records(docs, user), has_name(name))
}

/// No two records carry the same hash: the registry's global uniqueness
/// invariant over the primary index.
pub open spec fn unique_hashes(docs: Seq<DocumentRecordView>) -> bool {
    forall|i: int, j: int|
        0 <= i < j < docs.len() ==> docs[i].document_hash != docs[j].document_hash
}

} // verus!
