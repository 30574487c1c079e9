//! The registry itself: the primary index from hash to record, the per-user
//! secondary index, the registration counter, and the operations over them.

use vstd::prelude::*;

use crate::model::by_user;
use crate::model::find_named;
use crate::model::find_record;
use crate::model::has_hash;
use crate::model::has_name;
use crate::model::hash_registered;
use crate::model::name_used;
use crate::model::unique_hashes;
use crate::model::user_hash_list;
use crate::model::user_records;
use crate::model::valid_hash;
use crate::model::valid_name;
use crate::model::views_of;
use crate::scan::first_match;
use crate::scan::lemma_filter_push;
use crate::scan::lemma_first_match_found;
use crate::scan::lemma_first_match_none;
use crate::scan::lemma_first_match_push;
use crate::scan::lemma_first_match_update_here;
use crate::scan::lemma_first_match_update_other;
use crate::types::ContractError;
use crate::types::DocumentInfo;
use crate::types::DocumentRecord;
use crate::types::DocumentRecordView;
use crate::types::UserId;

verus! {

/// One user's entry in the secondary index: the hashes that user registered,
/// oldest first.
struct UserDocList {
    user: UserId,
    hashes: Vec<String>,
}

/// The mathematical content of a secondary-index entry.
#[verifier::ext_equal]
pub ghost struct UserDocListView {
    pub user: UserId,
    pub hashes: Seq<Seq<char>>,
}

impl View for UserDocList {
    type V = UserDocListView;

    closed spec fn view(&self) -> UserDocListView {
        UserDocListView {
            user: self.user,
            hashes: self.hashes@.map_values(|hash: String| hash@),
        }
    }
}

/// Picks the secondary-index entry of this user.
spec fn entry_of(user: UserId) -> spec_fn(UserDocListView) -> bool {
    |entry: UserDocListView| entry.user == user
}

/// The document-hash registry. It owns its whole state: the primary index
/// (every record, in registration order, with hashes globally unique), the
/// secondary index (per user, the hashes that user registered, oldest first),
/// and the count of successful registrations. The state is append-only:
/// records are created exactly once and never changed or removed.
pub struct DocumentVerificationContract {
    documents: Vec<DocumentRecord>,
    user_docs: Vec<UserDocList>,
    doc_count: u64,
}

impl DocumentVerificationContract {
    /// The registry's model: every record, in registration order.
    pub closed spec fn docs(self) -> Seq<DocumentRecordView> {
        views_of(self.documents@)
    }

    /// The count of successful registrations since initialization.
    pub closed spec fn count(self) -> u64 {
        self.doc_count
    }

    /// The secondary index as a sequence of entries.
    spec fn entries(self) -> Seq<UserDocListView> {
        self.user_docs@.map_values(|entry: UserDocList| entry@)
    }

    /// What the secondary index holds for `user`: the hash list of the
    /// user's entry, or nothing for a user without one.
    spec fn index_hashes(self, user: UserId) -> Seq<Seq<char>> {
        match first_match(self.entries(), entry_of(user)) {
            Some(entry) => entry.hashes,
            None => Seq::empty(),
        }
    }

    /// The registry's invariant: hashes are globally unique, the counter
    /// equals the number of records, and for every user the secondary index
    /// lists exactly the hashes of that user's records, in registration
    /// order.
    pub closed spec fn wf(self) -> bool {
        &&& unique_hashes(self.docs())
        &&& self.doc_count == self.docs().len()
        &&& forall|user: UserId| #[trigger]
            self.index_hashes(user) == user_hash_list(self.docs(), user)
    }

    /// A well-formed registry counts exactly its records: the counter equals
    /// the cardinality of the primary index.
    pub proof fn lemma_count_matches_documents(self)
        requires
            self.wf(),
        ensures
            self.count() == self.docs().len(),
    {
    }

    /// A well-formed registry holds at most one record per hash.
    pub proof fn lemma_wf_unique_hashes(self)
        requires
            self.wf(),
        ensures
            unique_hashes(self.docs()),
    {
    }

    /// Sets up the registry: no documents, no user entries, a count of zero.
    /// Construction is the one initialization; every later operation goes
    /// through `&self` or `&mut self`, so nothing can run before it.
    pub fn initialize() -> (registry: Self)
        ensures
            registry.wf(),
            registry.docs() == Seq::<DocumentRecordView>::empty(),
            registry.count() == 0,
    {
        let registry = DocumentVerificationContract {
            documents: Vec::new(),
            user_docs: Vec::new(),
            doc_count: 0,
        };
        proof {
            assert(registry.docs() =~= Seq::<DocumentRecordView>::empty());
            assert(registry.entries() =~= Seq::<UserDocListView>::empty());
            registry.lemma_empty_wf();
        }
        registry
    }

    /// The empty state satisfies the invariant.
    proof fn lemma_empty_wf(self)
        requires
            self.docs() == Seq::<DocumentRecordView>::empty(),
            self.entries() == Seq::<UserDocListView>::empty(),
            self.doc_count == 0,
        ensures
            self.wf(),
    {
        reveal(Seq::filter);
        assert forall|user: UserId| #[trigger]
            self.index_hashes(user) == user_hash_list(self.docs(), user) by {
            assert(self.index_hashes(user) =~= Seq::<Seq<char>>::empty());
            assert(user_hash_list(self.docs(), user) =~= Seq::<Seq<char>>::empty());
        }
    }

    /// The total number of registered documents.
    pub fn get_document_count(&self) -> (count: u64)
        ensures
            count == self.count(),
    {
        self.doc_count
    }

    /// Registers a document: after the host has confirmed that `caller`
    /// authorized the call, validates the hash and the name, refuses a hash
    /// that is already registered by anyone, and otherwise appends the record
    /// to the primary index, appends its hash to `caller`'s entry in the
    /// secondary index, and counts it. Returns the new total count.
    ///
    /// `timestamp` and `block_number` are the host's: the registry records
    /// them as given. The host publishes the registration event; the
    /// registry's own state change does not wait on that.
    pub fn register_document(
        &mut self,
        authorized: bool,
        caller: UserId,
        document_hash: String,
        document_name: String,
        timestamp: u64,
        block_number: u32,
    ) -> (outcome: Result<u64, ContractError>)
        requires
            old(self).wf(),
            authorized,
            old(self).count() < u64::MAX,
        ensures
            final(self).wf(),
            match outcome {
                Ok(count) => {
                    &&& valid_hash(document_hash@)
                    &&& valid_name(document_name@)
                    &&& !hash_registered(old(self).docs(), document_hash@)
                    &&& final(self).docs() == old(self).docs().push(
                        (DocumentRecordView {
                            document_hash: document_hash@,
                            document_name: document_name@,
                            registered_by: caller,
                            timestamp,
                            block_number,
                        }),
                    )
                    &&& final(self).count() == old(self).count() + 1
                    &&& count == final(self).count()
                },
                Err(error) => {
                    &&& *final(self) == *old(self)
                    &&& !(valid_hash(document_hash@) && valid_name(document_name@)
                        && !hash_registered(old(self).docs(), document_hash@))
                    &&& error == (if !valid_hash(document_hash@) {
                        ContractError::InvalidHashLength
                    } else if !valid_name(document_name@) {
                        ContractError::InvalidDocumentName
                    } else {
                        ContractError::DocumentAlreadyExists
                    })
                },
            },
    {
        let ghost pre = *old(self);
        let ghost hash_view: Seq<char> = document_hash@;
        let ghost new_record = DocumentRecordView {
            document_hash: document_hash@,
            document_name: document_name@,
            registered_by: caller,
            timestamp,
            block_number,
        };

        if let Err(error) = crate::validate::validate_hash(&document_hash) {
            return Err(error);
        }
        if let Err(error) = crate::validate::validate_name(&document_name) {
            return Err(error);
        }
        if self.find_document(&document_hash).is_some() {
            return Err(ContractError::DocumentAlreadyExists);
        }
        assert(!hash_registered(pre.docs(), hash_view));

        let record = DocumentRecord {
            document_hash: document_hash.clone(),
            document_name: document_name.clone(),
            registered_by: caller,
            timestamp,
            block_number,
        };
        let found_entry = self.find_user_entry(caller);
        self.documents.push(record);
        self.doc_count = self.doc_count + 1;
        assert(self.docs() =~= pre.docs().push(new_record));
        assert(self.entries() == pre.entries());

        match found_entry {
            Some(i) => {
                let entry = &mut self.user_docs[i];
                entry.hashes.push(document_hash);
                proof {
                    let updated = UserDocListView {
                        user: caller,
                        hashes: pre.entries()[i as int].hashes.push(hash_view),
                    };
                    assert(entry@.hashes =~= updated.hashes);
                    assert(self.entries() =~= pre.entries().update(i as int, updated));
                    lemma_first_match_found(pre.entries(), entry_of(caller), i as int);
                    assert forall|user: UserId| #[trigger] self.index_hashes(user) == (if user
                        == caller {
                        pre.index_hashes(caller).push(hash_view)
                    } else {
                        pre.index_hashes(user)
                    }) by {
                        if user == caller {
                            lemma_first_match_update_here(
                                pre.entries(),
                                entry_of(caller),
                                i as int,
                                updated,
                            );
                        } else {
                            lemma_first_match_update_other(
                                pre.entries(),
                                entry_of(user),
                                i as int,
                                updated,
                            );
                        }
                    }
                }
            },
            None => {
                let mut hashes: Vec<String> = Vec::new();
                hashes.push(document_hash);
                self.user_docs.push(UserDocList { user: caller, hashes });
                proof {
                    let added = self.user_docs@.last()@;
                    assert(added.user == caller);
                    assert(added.hashes =~= seq![hash_view]);
                    assert(self.entries() =~= pre.entries().push(added));
                    lemma_first_match_none(pre.entries(), entry_of(caller));
                    assert forall|user: UserId| #[trigger] self.index_hashes(user) == (if user
                        == caller {
                        pre.index_hashes(caller).push(hash_view)
                    } else {
                        pre.index_hashes(user)
                    }) by {
                        lemma_first_match_push(pre.entries(), entry_of(user), added);
                        if user == caller {
                            assert(pre.index_hashes(caller) =~= Seq::<Seq<char>>::empty());
                            assert(pre.index_hashes(caller).push(hash_view) =~= added.hashes);
                        }
                    }
                }
            },
        }

        proof {
            self.lemma_register_preserves_wf(pre, new_record, caller, hash_view);
        }
        Ok(self.doc_count)
    }

    /// Appending a fresh record, extending the registrant's entry in the
    /// secondary index, and counting it preserve the invariant.
    proof fn lemma_register_preserves_wf(
        self,
        pre: Self,
        new_record: DocumentRecordView,
        caller: UserId,
        hash_view: Seq<char>,
    )
        requires
            pre.wf(),
            pre.doc_count < u64::MAX,
            new_record.document_hash == hash_view,
            new_record.registered_by == caller,
            !hash_registered(pre.docs(), hash_view),
            self.docs() == pre.docs().push(new_record),
            self.doc_count == pre.doc_count + 1,
            forall|user: UserId| #[trigger]
                self.index_hashes(user) == (if user == caller {
                    pre.index_hashes(caller).push(hash_view)
                } else {
                    pre.index_hashes(user)
                }),
        ensures
            self.wf(),
    {
        assert(unique_hashes(self.docs())) by {
            assert forall|i: int, j: int| 0 <= i < j < self.docs().len() implies self.docs()[i]
                .document_hash != self.docs()[j].document_hash by {
                if j == self.docs().len() - 1 {
                    assert(!(pre.docs()[i].document_hash == hash_view));
                }
            }
        }
        assert forall|user: UserId| #[trigger]
            self.index_hashes(user) == user_hash_list(self.docs(), user) by {
            lemma_filter_push(pre.docs(), by_user(user), new_record);
            if user == caller {
                assert(user_records(self.docs(), user) == user_records(pre.docs(), user).push(
                    new_record,
                ));
                assert(user_hash_list(self.docs(), user) =~= user_hash_list(pre.docs(), user).push(
                    hash_view,
                ));
            } else {
                assert(user_records(self.docs(), user) == user_records(pre.docs(), user));
            }
        }
    }

    /// Whether `document_hash` is registered, and if so the record stored
    /// with it. Open to anyone: no authorization, no mutation.
    pub fn verify_document(&self, document_hash: &String) -> (info: DocumentInfo)
        ensures
            info.exists == hash_registered(self.docs(), document_hash@),
            match find_record(self.docs(), document_hash@) {
                Some(stored) => info.record matches Some(record) && record@ == stored,
                None => info.record is None,
            },
    {
        match self.find_document(document_hash) {
            Some(i) => {
                proof {
                    lemma_first_match_found(self.docs(), has_hash(document_hash@), i as int);
                }
                DocumentInfo { exists: true, record: Some(self.documents[i].clone()) }
            },
            None => {
                proof {
                    lemma_first_match_none(self.docs(), has_hash(document_hash@));
                }
                DocumentInfo { exists: false, record: None }
            },
        }
    }

    /// Every record `user` registered, oldest first and nothing else's. Open
    /// to anyone, and never an error: a user with no registrations gets the
    /// empty list.
    pub fn get_user_documents(&self, user: UserId) -> (records: Vec<DocumentRecord>)
        requires
            self.wf(),
        ensures
            views_of(records@) == user_records(self.docs(), user),
    {
        let mut records: Vec<DocumentRecord> = Vec::new();
        let entry_index = match self.find_user_entry(user) {
            None => {
                proof {
                    lemma_first_match_none(self.entries(), entry_of(user));
                    assert(self.index_hashes(user) == user_hash_list(self.docs(), user));
                    assert(user_hash_list(self.docs(), user).len() == 0);
                    assert(views_of(records@) =~= user_records(self.docs(), user));
                }
                return records;
            },
            Some(i) => i,
        };
        proof {
            lemma_first_match_found(self.entries(), entry_of(user), entry_index as int);
            assert(self.index_hashes(user) == user_hash_list(self.docs(), user));
        }
        let entry = &self.user_docs[entry_index];
        assert(entry@ == self.entries()[entry_index as int]);
        assert(entry@.hashes == user_hash_list(self.docs(), user));
        let mut k: usize = 0;
        while k < entry.hashes.len()
            invariant
                self.wf(),
                k <= entry@.hashes.len(),
                entry@.hashes == user_hash_list(self.docs(), user),
                views_of(records@) == user_records(self.docs(), user).subrange(0, k as int),
            decreases entry@.hashes.len() - k,
        {
            proof {
                let here = user_records(self.docs(), user)[k as int];
                self.docs().lemma_filter_pred(by_user(user), k as int);
                assert(user_records(self.docs(), user).contains(here));
                self.docs().lemma_filter_contains_rev(by_user(user), here);
                assert(entry@.hashes[k as int] == here.document_hash);
            }
            match self.find_document(&entry.hashes[k]) {
                Some(di) => {
                    proof {
                        let target = user_records(self.docs(), user);
                        let here = target[k as int];
                        let j = choose|j: int|
                            0 <= j < self.docs().len() && self.docs()[j] == here;
                        assert(self.docs()[j].document_hash == self.docs()[
                        di as int].document_hash);
                        assert(self.docs()[di as int] == here);
                        assert(user_hash_list(self.docs(), user).len() == target.len());
                        assert(target.len() == entry@.hashes.len());
                        assert(views_of(records@).len() == records@.len());
                        assert(records@.len() == k as int);
                    }
                    let ghost before = records@;
                    records.push(self.documents[di].clone());
                    proof {
                        let target = user_records(self.docs(), user);
                        assert(records@.len() == k as int + 1);
                        assert forall|j: int| 0 <= j < k as int + 1 implies views_of(records@)[j]
                            == target.subrange(0, k as int + 1)[j] by {
                            if j < k as int {
                                assert(records@[j] == before[j]);
                                assert(views_of(before)[j] == target.subrange(0, k as int)[j]);
                            } else {
                                assert(records@[j]@ == self.docs()[di as int]);
                            }
                        }
                        assert(views_of(records@) =~= target.subrange(0, k as int + 1));
                    }
                },
                None => {
                    proof {
                        let here = user_records(self.docs(), user)[k as int];
                        let j = choose|j: int|
                            0 <= j < self.docs().len() && self.docs()[j] == here;
                        assert(self.docs()[j].document_hash == entry@.hashes[k as int]);
                        assert(false);
                    }
                },
            }
            k = k + 1;
        }
        proof {
            let target = user_records(self.docs(), user);
            assert(target.subrange(0, target.len() as int) =~= target);
        }
        records
    }

    /// Whether `user` has registered some document under `document_name`.
    /// The scope is per user: another identity's use of the same name does
    /// not count. Open to anyone, no mutation.
    pub fn is_document_name_used(&self, user: UserId, document_name: &String) -> (used: bool)
        requires
            self.wf(),
        ensures
            used == name_used(self.docs(), user, document_name@),
    {
        let records = self.get_user_documents(user);
        let mut k: usize = 0;
        while k < records.len()
            invariant
                views_of(records@) == user_records(self.docs(), user),
                k <= records@.len(),
                forall|j: int|
                    0 <= j < k ==> user_records(self.docs(), user)[j].document_name
                        != document_name@,
            decreases records@.len() - k,
        {
            if records[k].document_name == *document_name {
                assert(user_records(self.docs(), user)[k as int].document_name
                    == document_name@);
                return true;
            }
            k = k + 1;
        }
        false
    }

    /// The earliest-registered of `user`'s documents named `document_name`,
    /// or `exists == false` if there is none. A user's reuse of a name is
    /// tolerated: the oldest match wins. Open to anyone, no mutation.
    pub fn get_document_by_name(&self, user: UserId, document_name: &String) -> (info: DocumentInfo)
        requires
            self.wf(),
        ensures
            info.exists == name_used(self.docs(), user, document_name@),
            match find_named(self.docs(), user, document_name@) {
                Some(stored) => info.record matches Some(record) && record@ == stored,
                None => info.record is None,
            },
    {
        let records = self.get_user_documents(user);
        let mut k: usize = 0;
        while k < records.len()
            invariant
                views_of(records@) == user_records(self.docs(), user),
                k <= records@.len(),
                forall|j: int|
                    0 <= j < k ==> user_records(self.docs(), user)[j].document_name
                        != document_name@,
            decreases records@.len() - k,
        {
            if records[k].document_name == *document_name {
                proof {
                    assert(user_records(self.docs(), user)[k as int].document_name
                        == document_name@);
                    lemma_first_match_found(
                        user_records(self.docs(), user),
                        has_name(document_name@),
                        k as int,
                    );
                }
                return DocumentInfo { exists: true, record: Some(records[k].clone()) };
            }
            k = k + 1;
        }
        proof {
            lemma_first_match_none(user_records(self.docs(), user), has_name(document_name@));
        }
        DocumentInfo { exists: false, record: None }
    }

    /// The position of the record carrying `document_hash`, by linear scan.
    fn find_document(&self, document_hash: &String) -> (found: Option<usize>)
        ensures
            match found {
                Some(i) => {
                    &&& i < self.docs().len()
                    &&& self.docs()[i as int].document_hash == document_hash@
                    &&& forall|j: int|
                        0 <= j < i ==> self.docs()[j].document_hash != document_hash@
                },
                None => forall|j: int|
                    0 <= j < self.docs().len() ==> self.docs()[j].document_hash != document_hash@,
            },
    {
        let mut i: usize = 0;
        while i < self.documents.len()
            invariant
                i <= self.docs().len(),
                forall|j: int| 0 <= j < i ==> self.docs()[j].document_hash != document_hash@,
            decreases self.docs().len() - i,
        {
            if self.documents[i].document_hash == *document_hash {
                return Some(i);
            }
            i = i + 1;
        }
        None
    }

    /// The position of `user`'s entry in the secondary index, by linear scan.
    fn find_user_entry(&self, user: UserId) -> (found: Option<usize>)
        ensures
            match found {
                Some(i) => {
                    &&& i < self.entries().len()
                    &&& self.entries()[i as int].user == user
                    &&& forall|j: int| 0 <= j < i ==> self.entries()[j].user != user
                },
                None => forall|j: int|
                    0 <= j < self.entries().len() ==> self.entries()[j].user != user,
            },
    {
        let mut i: usize = 0;
        while i < self.user_docs.len()
            invariant
                i <= self.entries().len(),
                forall|j: int| 0 <= j < i ==> self.entries()[j].user != user,
            decreases self.entries().len() - i,
        {
            if self.user_docs[i].user == user {
                return Some(i);
            }
            i = i + 1;
        }
        None
    }
}

} // verus!
