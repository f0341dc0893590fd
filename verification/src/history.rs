//! The record store: durable creation and retrieval of content-addressed
//! records, with write-time authorization delegated to the permission
//! registry.
//!
//! Two indices are kept, written atomically with each creation:
//! - a global index from content hash to record — append-only, a hash is
//!   never overwritten or deleted;
//! - an owner index from owner to the hash of the owner's current (most
//!   recent) record.

use vstd::prelude::*;

use crate::events::Event;
use crate::events::EventLog;
use crate::events::EventModel;
use crate::permissions::PermissionRegistry;
use crate::permissions::allows;
use crate::types::AccountId;
use crate::types::Error;
use crate::types::FileHash;
use crate::types::MAX_HASH_BYTES;
use crate::types::MedicalRecord;
use crate::types::Moment;
use crate::types::RecordModel;

verus! {

// ---------------------------------------------------------------------
// The mathematical model: two maps and the outcome of a creation.
// ---------------------------------------------------------------------

/// The record a successful creation commits.
pub open spec fn created(
    caller: AccountId,
    patient: AccountId,
    now: Moment,
    hash: Seq<u8>,
) -> RecordModel {
    RecordModel { owner: patient, created_by: caller, created_at: now, hash }
}

/// Outcome of `create_record`: authorization is judged first, then
/// uniqueness; only then is the write admitted.
pub open spec fn create_result(
    grants: Set<(AccountId, AccountId)>,
    records: Map<Seq<u8>, RecordModel>,
    caller: AccountId,
    patient: AccountId,
    hash: Seq<u8>,
) -> Result<(), Error> {
    if !allows(grants, patient, caller) {
        Err(Error::NoPermission)
    } else if records.dom().contains(hash) {
        Err(Error::RecordAlreadyExists)
    } else {
        Ok(())
    }
}

/// Owner-scoped lookup: a record is found under `(patient, hash)` only when
/// `hash` is `patient`'s current record — a hash stored under a different
/// owner is invisible here.
pub open spec fn lookup(
    records: Map<Seq<u8>, RecordModel>,
    current: Map<AccountId, Seq<u8>>,
    patient: AccountId,
    hash: Seq<u8>,
) -> Option<RecordModel> {
    if current.dom().contains(patient) && current[patient] == hash && records.dom().contains(hash) {
        Some(records[hash])
    } else {
        None
    }
}

/// The owner's current record, if any.
pub open spec fn latest(
    records: Map<Seq<u8>, RecordModel>,
    current: Map<AccountId, Seq<u8>>,
    patient: AccountId,
) -> Option<RecordModel> {
    if current.dom().contains(patient) && records.dom().contains(current[patient]) {
        Some(records[current[patient]])
    } else {
        None
    }
}

/// The two indices agree: every global entry is keyed by its own hash and
/// within capacity, and every owner's current hash resolves to a record
/// owned by that owner.
pub open spec fn consistent(
    records: Map<Seq<u8>, RecordModel>,
    current: Map<AccountId, Seq<u8>>,
) -> bool {
    &&& forall|h: Seq<u8>| #[trigger]
        records.dom().contains(h) ==> records[h].hash == h && h.len() <= MAX_HASH_BYTES
    &&& forall|p: AccountId| #[trigger]
        current.dom().contains(p) ==> records.dom().contains(current[p])
            && records[current[p]].owner == p
}

// ---------------------------------------------------------------------
// The representation: two association vectors with unique keys.
// ---------------------------------------------------------------------

spec fn has_hash(s: Seq<MedicalRecord>, h: Seq<u8>) -> bool {
    exists|i: int| 0 <= i < s.len() && s[i]@.hash == h
}

spec fn idx_of(s: Seq<MedicalRecord>, h: Seq<u8>) -> int {
    choose|i: int| 0 <= i < s.len() && s[i]@.hash == h
}

spec fn record_at(s: Seq<MedicalRecord>, h: Seq<u8>) -> RecordModel {
    s[idx_of(s, h)]@
}

spec fn hashes_unique(s: Seq<MedicalRecord>) -> bool {
    forall|i: int, j: int| 0 <= i < j < s.len() ==> s[i]@.hash != s[j]@.hash
}

spec fn has_patient(s: Seq<(AccountId, FileHash)>, p: AccountId) -> bool {
    exists|i: int| 0 <= i < s.len() && s[i].0 == p
}

spec fn pidx_of(s: Seq<(AccountId, FileHash)>, p: AccountId) -> int {
    choose|i: int| 0 <= i < s.len() && s[i].0 == p
}

spec fn cur_at(s: Seq<(AccountId, FileHash)>, p: AccountId) -> Seq<u8> {
    s[pidx_of(s, p)].1@
}

spec fn patients_unique(s: Seq<(AccountId, FileHash)>) -> bool {
    forall|i: int, j: int| 0 <= i < j < s.len() ==> s[i].0 != s[j].0
}

/// An entry of the owner index points at a stored record of that owner.
spec fn entry_ok(records: Seq<MedicalRecord>, current: Seq<(AccountId, FileHash)>, k: int) -> bool {
    &&& has_hash(records, current[k].1@)
    &&& record_at(records, current[k].1@).owner == current[k].0
}

/// Owns record metadata and both indices.
pub struct RecordStore {
    records: Vec<MedicalRecord>,
    current: Vec<(AccountId, FileHash)>,
}

// ---------------------------------------------------------------------
// Representation lemmas.
// ---------------------------------------------------------------------

proof fn lemma_record_index(s: Seq<MedicalRecord>, i: int)
    requires
        hashes_unique(s),
        0 <= i < s.len(),
    ensures
        has_hash(s, s[i]@.hash),
        idx_of(s, s[i]@.hash) == i,
{
    assert(has_hash(s, s[i]@.hash));
    let k = idx_of(s, s[i]@.hash);
    assert(0 <= k < s.len() && s[k]@.hash == s[i]@.hash);
}

proof fn lemma_current_index(s: Seq<(AccountId, FileHash)>, i: int)
    requires
        patients_unique(s),
        0 <= i < s.len(),
    ensures
        has_patient(s, s[i].0),
        pidx_of(s, s[i].0) == i,
{
    assert(has_patient(s, s[i].0));
    let k = pidx_of(s, s[i].0);
    assert(0 <= k < s.len() && s[k].0 == s[i].0);
}

/// Appending a record with a fresh hash extends the global index by exactly
/// that one key and disturbs no other entry.
proof fn lemma_push_record(s: Seq<MedicalRecord>, rec: MedicalRecord)
    requires
        hashes_unique(s),
        !has_hash(s, rec@.hash),
    ensures
        hashes_unique(s.push(rec)),
        forall|h: Seq<u8>| #[trigger]
            has_hash(s.push(rec), h) <==> (has_hash(s, h) || h == rec@.hash),
        forall|h: Seq<u8>|
            has_hash(s, h) ==> #[trigger] record_at(s.push(rec), h) == record_at(s, h),
        record_at(s.push(rec), rec@.hash) == rec@,
{
    let t = s.push(rec);
    assert forall|i: int, j: int| 0 <= i < j < t.len() implies t[i]@.hash != t[j]@.hash by {
        if j == s.len() {
            if t[i]@.hash == rec@.hash {
                assert(0 <= i < s.len() && s[i]@.hash == rec@.hash);
                assert(has_hash(s, rec@.hash));
            }
        }
    }
    assert forall|h: Seq<u8>| #[trigger]
        has_hash(t, h) <==> (has_hash(s, h) || h == rec@.hash) by {
        if has_hash(t, h) {
            let i = choose|i: int| 0 <= i < t.len() && t[i]@.hash == h;
            if i < s.len() {
                assert(s[i]@.hash == h);
                assert(has_hash(s, h));
            }
        }
        if has_hash(s, h) {
            let i = choose|i: int| 0 <= i < s.len() && s[i]@.hash == h;
            assert(t[i]@.hash == h);
            assert(has_hash(t, h));
        }
        if h == rec@.hash {
            assert(t[s.len() as int]@.hash == h);
            assert(has_hash(t, h));
        }
    }
    assert forall|h: Seq<u8>| has_hash(s, h) implies #[trigger] record_at(t, h) == record_at(
        s,
        h,
    ) by {
        let i = idx_of(s, h);
        assert(0 <= i < s.len() && s[i]@.hash == h);
        assert(has_hash(t, h));
        let j = idx_of(t, h);
        assert(0 <= j < t.len() && t[j]@.hash == h);
        assert(j < s.len());
        if i != j {
            assert(t[i]@.hash == t[j]@.hash);
        }
    }
    assert(record_at(t, rec@.hash) == rec@) by {
        assert(t[s.len() as int]@.hash == rec@.hash);
        assert(has_hash(t, rec@.hash));
        let j = idx_of(t, rec@.hash);
        assert(0 <= j < t.len() && t[j]@.hash == rec@.hash);
        if j < s.len() {
            assert(s[j]@.hash == rec@.hash);
            assert(has_hash(s, rec@.hash));
        }
    }
}

impl RecordStore {
    /// Mathematical content of the global index: content hash to record.
    pub closed spec fn records_map(&self) -> Map<Seq<u8>, RecordModel> {
        Map::new(
            |h: Seq<u8>| has_hash(self.records@, h),
            |h: Seq<u8>| record_at(self.records@, h),
        )
    }

    /// Mathematical content of the owner index: owner to current hash.
    pub closed spec fn current_map(&self) -> Map<AccountId, Seq<u8>> {
        Map::new(
            |p: AccountId| has_patient(self.current@, p),
            |p: AccountId| cur_at(self.current@, p),
        )
    }

    /// Both indices have unique keys, every stored record is within
    /// capacity, and the owner index points only at records of that owner.
    pub closed spec fn wf(&self) -> bool {
        &&& hashes_unique(self.records@)
        &&& forall|i: int| 0 <= i < self.records@.len() ==> (#[trigger] self.records@[i]).wf()
        &&& patients_unique(self.current@)
        &&& forall|k: int|
            0 <= k < self.current@.len() ==> #[trigger] entry_ok(self.records@, self.current@, k)
    }

    /// A well-formed store presents consistent maps.
    pub proof fn lemma_wf_consistent(&self)
        requires
            self.wf(),
        ensures
            consistent(self.records_map(), self.current_map()),
    {
        assert forall|h: Seq<u8>| #[trigger] self.records_map().dom().contains(h) implies self
            .records_map()[h].hash == h && h.len() <= MAX_HASH_BYTES by {
            let i = idx_of(self.records@, h);
            assert(0 <= i < self.records@.len() && self.records@[i]@.hash == h);
            assert(self.records@[i].wf());
        }
        assert forall|p: AccountId| #[trigger] self.current_map().dom().contains(p) implies self
            .records_map().dom().contains(self.current_map()[p]) && self.records_map()[self
            .current_map()[p]].owner == p by {
            let k = pidx_of(self.current@, p);
            assert(0 <= k < self.current@.len() && self.current@[k].0 == p);
            assert(entry_ok(self.records@, self.current@, k));
        }
    }

    /// An empty store: no records, no owner entries.
    pub fn new() -> (r: RecordStore)
        ensures
            r.wf(),
            r.records_map() == Map::<Seq<u8>, RecordModel>::empty(),
            r.current_map() == Map::<AccountId, Seq<u8>>::empty(),
    {
        let r = RecordStore { records: Vec::new(), current: Vec::new() };
        proof {
            assert(r.records_map() =~= Map::<Seq<u8>, RecordModel>::empty());
            assert(r.current_map() =~= Map::<AccountId, Seq<u8>>::empty());
        }
        r
    }

    /// Position of the record stored under `hash`, if any.
    fn find_record(&self, hash: &FileHash) -> (r: Option<usize>)
        ensures
            match r {
                Some(i) => i < self.records@.len() && self.records@[i as int]@.hash == hash@,
                None => !has_hash(self.records@, hash@),
            },
    {
        let n = self.records.len();
        let mut i: usize = 0;
        while i < n
            invariant
                n == self.records@.len(),
                i <= n,
                forall|j: int| 0 <= j < i ==> self.records@[j]@.hash != hash@,
            decreases n - i,
        {
            let rec = &self.records[i];
            if rec.file_hash.equals(hash) {
                return Some(i);
            }
            i += 1;
        }
        None
    }

    /// Position of `patient`'s entry in the owner index, if any.
    fn find_current(&self, patient: AccountId) -> (r: Option<usize>)
        ensures
            match r {
                Some(i) => i < self.current@.len() && self.current@[i as int].0 == patient,
                None => !has_patient(self.current@, patient),
            },
    {
        let n = self.current.len();
        let mut i: usize = 0;
        while i < n
            invariant
                n == self.current@.len(),
                i <= n,
                forall|j: int| 0 <= j < i ==> self.current@[j].0 != patient,
            decreases n - i,
        {
            let entry = &self.current[i];
            if entry.0 == patient {
                return Some(i);
            }
            i += 1;
        }
        None
    }

    /// Makes `entry_hash` the owner's current hash, replacing the owner's
    /// previous entry or appending a fresh one. Touches only the owner index.
    fn set_current(&mut self, patient: AccountId, entry_hash: FileHash)
        requires
            patients_unique(old(self).current@),
        ensures
            final(self).records@ == old(self).records@,
            patients_unique(final(self).current@),
            forall|q: AccountId| #[trigger]
                has_patient(final(self).current@, q) <==> (has_patient(old(self).current@, q)
                    || q == patient),
            cur_at(final(self).current@, patient) == entry_hash@,
            forall|q: AccountId|
                q != patient && has_patient(old(self).current@, q) ==> #[trigger] cur_at(
                    final(self).current@,
                    q,
                ) == cur_at(old(self).current@, q),
    {
        let ghost s = self.current@;
        let ghost nh = entry_hash@;
        match self.find_current(patient) {
            Some(i) => {
                self.current.set(i, (patient, entry_hash));
                proof {
                    let t = self.current@;
                    assert(t == s.update(i as int, t[i as int]));
                    assert forall|a: int, b: int| 0 <= a < b < t.len() implies t[a].0 != t[b].0 by {
                        assert(s[a].0 == t[a].0 || a == i);
                        assert(s[b].0 == t[b].0 || b == i);
                    }
                    assert forall|q: AccountId| #[trigger]
                        has_patient(t, q) <==> (has_patient(s, q) || q == patient) by {
                        if has_patient(t, q) {
                            let k = choose|k: int| 0 <= k < t.len() && t[k].0 == q;
                            if k != i {
                                assert(s[k].0 == q);
                                assert(has_patient(s, q));
                            }
                        }
                        if has_patient(s, q) {
                            let k = choose|k: int| 0 <= k < s.len() && s[k].0 == q;
                            if k != i {
                                assert(t[k].0 == q);
                                assert(has_patient(t, q));
                            } else {
                                assert(t[i as int].0 == q);
                                assert(has_patient(t, q));
                            }
                        }
                        if q == patient {
                            assert(t[i as int].0 == q);
                            assert(has_patient(t, q));
                        }
                    }
                    assert(cur_at(t, patient) == nh) by {
                        assert(t[i as int].0 == patient);
                        lemma_current_index(t, i as int);
                    }
                    assert forall|q: AccountId|
                        q != patient && has_patient(s, q) implies #[trigger] cur_at(t, q) == cur_at(
                        s,
                        q,
                    ) by {
                        let k = pidx_of(s, q);
                        assert(0 <= k < s.len() && s[k].0 == q);
                        assert(k != i) by {
                            assert(s[i as int].0 == patient);
                        }
                        assert(t[k].0 == q);
                        lemma_current_index(t, k);
                        lemma_current_index(s, k);
                    }
                }
            },
            None => {
                self.current.push((patient, entry_hash));
                proof {
                    let t = self.current@;
                    assert forall|a: int, b: int| 0 <= a < b < t.len() implies t[a].0 != t[b].0 by {
                        if b == s.len() {
                            assert(s[a].0 == t[a].0);
                            if t[a].0 == patient {
                                assert(has_patient(s, patient));
                            }
                        }
                    }
                    assert forall|q: AccountId| #[trigger]
                        has_patient(t, q) <==> (has_patient(s, q) || q == patient) by {
                        if has_patient(t, q) {
                            let k = choose|k: int| 0 <= k < t.len() && t[k].0 == q;
                            if k < s.len() {
                                assert(s[k].0 == q);
                                assert(has_patient(s, q));
                            }
                        }
                        if has_patient(s, q) {
                            let k = choose|k: int| 0 <= k < s.len() && s[k].0 == q;
                            assert(t[k].0 == q);
                            assert(has_patient(t, q));
                        }
                        if q == patient {
                            assert(t[s.len() as int].0 == q);
                            assert(has_patient(t, q));
                        }
                    }
                    assert(cur_at(t, patient) == nh) by {
                        assert(t[s.len() as int].0 == patient);
                        lemma_current_index(t, s.len() as int);
                    }
                    assert forall|q: AccountId|
                        q != patient && has_patient(s, q) implies #[trigger] cur_at(t, q) == cur_at(
                        s,
                        q,
                    ) by {
                        let k = pidx_of(s, q);
                        assert(0 <= k < s.len() && s[k].0 == q);
                        assert(t[k].0 == q);
                        lemma_current_index(t, k);
                        lemma_current_index(s, k);
                    }
                }
            },
        }
    }

    /// Creates a record: authorization first, then global uniqueness of the
    /// hash, then an atomic commit to both indices and one notification.
    /// Any failure leaves store and log untouched.
    pub fn create_record(
        &mut self,
        perms: &PermissionRegistry,
        log: &mut EventLog,
        caller: AccountId,
        patient: AccountId,
        file_hash: FileHash,
        now: Moment,
    ) -> (r: Result<(), Error>)
        requires
            old(self).wf(),
            file_hash.wf(),
        ensures
            final(self).wf(),
            r == create_result(perms@, old(self).records_map(), caller, patient, file_hash@),
            r is Err ==> *final(self) == *old(self) && *final(log) == *old(log),
            r is Ok ==> {
                &&& final(self).records_map() == old(self).records_map().insert(
                    file_hash@,
                    created(caller, patient, now, file_hash@),
                )
                &&& final(self).current_map() == old(self).current_map().insert(
                    patient,
                    file_hash@,
                )
                &&& final(log)@ == old(log)@.push(
                    EventModel::RecordCreated { patient, doctor: caller, hash: file_hash@ },
                )
            },
    {
        if !perms.has_access(patient, caller) {
            return Err(Error::NoPermission);
        }
        match self.find_record(&file_hash) {
            Some(i) => {
                proof {
                    lemma_record_index(self.records@, i as int);
                    assert(self.records_map().dom().contains(file_hash@));
                }
                return Err(Error::RecordAlreadyExists);
            },
            None => {},
        }
        let ghost old_records = self.records@;
        let ghost old_current = self.current@;
        let ghost h = file_hash@;
        let record = MedicalRecord {
            owner: patient,
            created_by: caller,
            created_at: now,
            file_hash: file_hash.clone(),
        };
        let ghost grec = record;
        self.set_current(patient, file_hash.clone());
        self.records.push(record);
        proof {
            let new_records = self.records@;
            let new_current = self.current@;
            lemma_push_record(old_records, grec);
            assert(new_records == old_records.push(grec));
            // The global index gains exactly the new hash.
            assert(self.records_map() =~= old(self).records_map().insert(
                h,
                created(caller, patient, now, h),
            )) by {
                assert(grec@ == created(caller, patient, now, h));
                assert forall|k: Seq<u8>| #[trigger]
                    has_hash(new_records, k) <==> (has_hash(old_records, k) || k == h) by {}
            }
            // The owner index gains or replaces exactly the owner's entry.
            assert(self.current_map() =~= old(self).current_map().insert(patient, h)) by {
                assert forall|q: AccountId|
                    q != patient && has_patient(old_current, q) implies #[trigger] cur_at(
                    new_current,
                    q,
                ) == cur_at(old_current, q) by {}
            }
            // Well-formedness is preserved.
            assert forall|i: int| 0 <= i < new_records.len() implies (
            #[trigger] new_records[i]).wf() by {
                if i < old_records.len() {
                    assert(old_records[i].wf());
                }
            }
            assert forall|k: int| 0 <= k < new_current.len() implies #[trigger] entry_ok(
                new_records,
                new_current,
                k,
            ) by {
                let q = new_current[k].0;
                lemma_current_index(new_current, k);
                if q == patient {
                    assert(cur_at(new_current, q) == h);
                    assert(new_current[k].1@ == h);
                    assert(record_at(new_records, h) == grec@);
                } else {
                    assert(has_patient(new_current, q));
                    assert(has_patient(old_current, q));
                    let k0 = pidx_of(old_current, q);
                    assert(0 <= k0 < old_current.len() && old_current[k0].0 == q);
                    assert(entry_ok(old_records, old_current, k0));
                    lemma_current_index(old_current, k0);
                    assert(cur_at(new_current, q) == cur_at(old_current, q));
                    assert(new_current[k].1@ == old_current[k0].1@);
                    assert(record_at(new_records, new_current[k].1@) == record_at(
                        old_records,
                        old_current[k0].1@,
                    ));
                }
            }
        }
        log.emit(Event::RecordCreated { patient, doctor: caller, hash: file_hash });
        Ok(())
    }

    /// Owner-scoped lookup: the record under `(patient, file_hash)`, or
    /// `None` — also when the hash exists under a different owner.
    pub fn get_patient_record(&self, patient: AccountId, file_hash: &FileHash) -> (r: Option<
        MedicalRecord,
    >)
        requires
            self.wf(),
        ensures
            match r {
                Some(rec) => lookup(self.records_map(), self.current_map(), patient, file_hash@)
                    == Some(rec@) && rec.wf(),
                None => lookup(self.records_map(), self.current_map(), patient, file_hash@)
                    is None,
            },
    {
        match self.find_current(patient) {
            None => None,
            Some(i) => {
                proof {
                    lemma_current_index(self.current@, i as int);
                }
                let entry = &self.current[i];
                if entry.1.equals(file_hash) {
                    match self.find_record(file_hash) {
                        Some(j) => {
                            proof {
                                lemma_record_index(self.records@, j as int);
                                assert(entry_ok(self.records@, self.current@, i as int));
                            }
                            let rec = self.records[j].clone();
                            proof {
                                assert(self.records@[j as int].wf());
                            }
                            Some(rec)
                        },
                        None => None,
                    }
                } else {
                    None
                }
            },
        }
    }

    /// The owner's current (most recent) record, if the owner has one.
    pub fn get_latest_by_owner(&self, patient: AccountId) -> (r: Option<MedicalRecord>)
        requires
            self.wf(),
        ensures
            match r {
                Some(rec) => latest(self.records_map(), self.current_map(), patient) == Some(rec@)
                    && rec.wf(),
                None => latest(self.records_map(), self.current_map(), patient) is None,
            },
    {
        match self.find_current(patient) {
            None => None,
            Some(i) => {
                proof {
                    lemma_current_index(self.current@, i as int);
                    assert(entry_ok(self.records@, self.current@, i as int));
                }
                let entry = &self.current[i];
                match self.find_record(&entry.1) {
                    Some(j) => {
                        proof {
                            lemma_record_index(self.records@, j as int);
                        }
                        let rec = self.records[j].clone();
                        proof {
                            assert(self.records@[j as int].wf());
                        }
                        Some(rec)
                    },
                    None => None,
                }
            },
        }
    }

    /// Global-index getter: the record stored under `hash`, whoever owns it.
    pub fn records(&self, hash: &FileHash) -> (r: Option<MedicalRecord>)
        requires
            self.wf(),
        ensures
            match r {
                Some(rec) => self.records_map().dom().contains(hash@)
                    && self.records_map()[hash@] == rec@ && rec.wf(),
                None => !self.records_map().dom().contains(hash@),
            },
    {
        match self.find_record(hash) {
            Some(j) => {
                proof {
                    lemma_record_index(self.records@, j as int);
                    assert(self.records@[j as int].wf());
                }
                Some(self.records[j].clone())
            },
            None => None,
        }
    }

    /// Owner-index getter: the hash of `patient`'s current record, if any.
    pub fn patient_record(&self, patient: AccountId) -> (r: Option<FileHash>)
        requires
            self.wf(),
        ensures
            match r {
                Some(hash) => self.current_map().dom().contains(patient)
                    && self.current_map()[patient] == hash@,
                None => !self.current_map().dom().contains(patient),
            },
    {
        match self.find_current(patient) {
            Some(i) => {
                proof {
                    lemma_current_index(self.current@, i as int);
                }
                Some(self.current[i].1.clone())
            },
            None => None,
        }
    }
}

// ---------------------------------------------------------------------
// Laws of creation.
// ---------------------------------------------------------------------

/// Uniqueness: once a creation committed a hash, a second creation of the
/// same hash is refused as [`Error::RecordAlreadyExists`] — whoever the
/// second owner and author are, as long as that author is authorized (an
/// unauthorized author is refused earlier, as [`Error::NoPermission`]).
pub proof fn lemma_create_uniqueness(
    grants1: Set<(AccountId, AccountId)>,
    grants2: Set<(AccountId, AccountId)>,
    records: Map<Seq<u8>, RecordModel>,
    caller1: AccountId,
    patient1: AccountId,
    caller2: AccountId,
    patient2: AccountId,
    hash: Seq<u8>,
    now: Moment,
)
    requires
        create_result(grants1, records, caller1, patient1, hash) == Ok::<(), Error>(()),
        allows(grants2, patient2, caller2),
    ensures
        create_result(
            grants2,
            records.insert(hash, created(caller1, patient1, now, hash)),
            caller2,
            patient2,
            hash,
        ) == Err::<(), Error>(Error::RecordAlreadyExists),
{
}

/// Authorization gate: an author with no grant from the named owner is
/// refused as [`Error::NoPermission`]; after `grant(patient, caller)` the
/// identical creation is admitted.
pub proof fn lemma_create_authorization(
    grants: Set<(AccountId, AccountId)>,
    records: Map<Seq<u8>, RecordModel>,
    caller: AccountId,
    patient: AccountId,
    hash: Seq<u8>,
)
    requires
        caller != patient,
        !grants.contains((patient, caller)),
        !records.dom().contains(hash),
    ensures
        create_result(grants, records, caller, patient, hash) == Err::<(), Error>(
            Error::NoPermission,
        ),
        create_result(grants.insert((patient, caller)), records, caller, patient, hash) == Ok::<
            (),
            Error,
        >(()),
{
}

} // verus!
