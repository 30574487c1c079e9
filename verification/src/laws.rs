//! The registry's laws: what holds of the model across operations, stated
//! over the same spec functions the operations' contracts use, and proved for
//! every reachable state, not just for chosen inputs.

use vstd::prelude::*;

use crate::model::by_user;
use crate::model::find_record;
use crate::model::has_hash;
use crate::model::hash_registered;
use crate::model::name_used;
use crate::model::unique_hashes;
use crate::model::user_records;
use crate::scan::lemma_filter_push;
use crate::scan::lemma_first_match_found;
use crate::scan::lemma_first_match_none;
use crate::types::DocumentRecordView;
use crate::types::UserId;

verus! {

/// Registration is append-only: a successful registration registers its own
/// hash, and every hash registered before stays registered. Together with
/// `register_document`'s contract — a registered hash is refused with
/// `DocumentAlreadyExists` and the registry left unchanged — this is why a
/// second registration of the same hash always fails and changes no count.
pub proof fn lemma_registration_appends(docs: Seq<DocumentRecordView>, added: DocumentRecordView)
    ensures
        hash_registered(docs.push(added), added.document_hash),
        forall|hash: Seq<char>|
            hash_registered(docs, hash) ==> hash_registered(docs.push(added), hash),
{
    assert(docs.push(added)[docs.len() as int] == added);
    assert forall|hash: Seq<char>| hash_registered(docs, hash) implies hash_registered(
        docs.push(added),
        hash,
    ) by {
        let i = choose|i: int| 0 <= i < docs.len() && docs[i].document_hash == hash;
        assert(docs.push(added)[i] == docs[i]);
    }
}

/// With hashes unique — the registry's invariant — looking a hash up finds
/// exactly the record that was stored with it.
pub proof fn lemma_lookup_is_exact(docs: Seq<DocumentRecordView>, i: int)
    requires
        unique_hashes(docs),
        0 <= i < docs.len(),
    ensures
        find_record(docs, docs[i].document_hash) == Some(docs[i]),
{
    lemma_first_match_found(docs, has_hash(docs[i].document_hash), i);
}

/// A hash never registered is never found.
pub proof fn lemma_unregistered_not_found(docs: Seq<DocumentRecordView>, hash: Seq<char>)
    requires
        !hash_registered(docs, hash),
    ensures
        find_record(docs, hash) is None,
{
    lemma_first_match_none(docs, has_hash(hash));
}

/// A user's record list holds only that user's registrations.
pub proof fn lemma_user_records_owned(docs: Seq<DocumentRecordView>, user: UserId)
    ensures
        forall|i: int|
            0 <= i < user_records(docs, user).len() ==> user_records(docs, user)[i].registered_by
                == user,
{
    assert forall|i: int| 0 <= i < user_records(docs, user).len() implies user_records(
        docs,
        user,
    )[i].registered_by == user by {
        docs.lemma_filter_pred(by_user(user), i);
    }
}

/// Registration keeps order: a new registration goes to the end of its
/// registrant's list and leaves every other user's list as it was.
pub proof fn lemma_user_records_append(
    docs: Seq<DocumentRecordView>,
    added: DocumentRecordView,
    user: UserId,
)
    ensures
        user_records(docs.push(added), user) == (if added.registered_by == user {
            user_records(docs, user).push(added)
        } else {
            user_records(docs, user)
        }),
{
    lemma_filter_push(docs, by_user(user), added);
}

/// Right after a user registers a document under a name, that name counts as
/// used by that user.
pub proof fn lemma_name_used_after_registration(
    docs: Seq<DocumentRecordView>,
    added: DocumentRecordView,
)
    ensures
        name_used(docs.push(added), added.registered_by, added.document_name),
{
    lemma_user_records_append(docs, added, added.registered_by);
    let list = user_records(docs.push(added), added.registered_by);
    assert(list[list.len() - 1] == added);
}

/// Names are scoped per user: one user's registration never changes whether a
/// name counts as used by another user, identical names included.
pub proof fn lemma_name_use_is_per_user(
    docs: Seq<DocumentRecordView>,
    added: DocumentRecordView,
    user: UserId,
    name: Seq<char>,
)
    requires
        user != added.registered_by,
    ensures
        name_used(docs.push(added), user, name) == name_used(docs, user, name),
{
    lemma_user_records_append(docs, added, user);
}

} // verus!
