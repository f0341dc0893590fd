//! Core data types: principals, timestamps, content hashes and records.

use vstd::prelude::*;

verus! {

/// Identifies an authenticated principal (patient, doctor, or any account).
/// The host hands each operation the caller's id; no role is attached to it.
pub type AccountId = u64;

/// A timestamp read from the host's monotonic time source.
pub type Moment = u64;

/// Largest number of bytes a content hash may hold.
pub const MAX_HASH_BYTES: usize = 64;

/// Content hash of a medical file: an opaque byte string of at most
/// [`MAX_HASH_BYTES`] bytes, supplied by the caller.
#[derive(Debug, PartialEq, Eq)]
pub struct FileHash {
    bytes: Vec<u8>,
}

impl View for FileHash {
    type V = Seq<u8>;

    closed spec fn view(&self) -> Seq<u8> {
        self.bytes@
    }
}

impl FileHash {
    /// The hash is within the fixed capacity.
    pub open spec fn wf(&self) -> bool {
        self@.len() <= MAX_HASH_BYTES
    }

    /// Accepts `bytes` as a hash when it fits; rejects anything longer.
    pub fn new(bytes: Vec<u8>) -> (r: Option<FileHash>)
        ensures
            bytes@.len() <= MAX_HASH_BYTES ==> (r matches Some(h) && h@ == bytes@ && h.wf()),
            bytes@.len() > MAX_HASH_BYTES ==> r is None,
    {
        if bytes.len() <= MAX_HASH_BYTES {
            Some(FileHash { bytes })
        } else {
            None
        }
    }

    /// The raw bytes of the hash.
    pub fn bytes(&self) -> (r: &Vec<u8>)
        ensures
            r@ == self@,
    {
        &self.bytes
    }

    /// How many bytes the hash holds.
    pub fn len(&self) -> (n: usize)
        ensures
            n == self@.len(),
    {
        self.bytes.len()
    }

    /// Whether `self` and `other` hold the same bytes.
    pub fn equals(&self, other: &FileHash) -> (r: bool)
        ensures
            r == (self@ == other@),
    {
        if self.bytes.len() != other.bytes.len() {
            assert(self@ != other@);
            return false;
        }
        let n = self.bytes.len();
        let mut i: usize = 0;
        while i < n
            invariant
                n == self@.len(),
                n == other@.len(),
                i <= n,
                forall|j: int| 0 <= j < i ==> self@[j] == other@[j],
            decreases n - i,
        {
            if self.bytes[i] != other.bytes[i] {
                return false;
            }
            i += 1;
        }
        proof {
            assert(self@ =~= other@);
        }
        true
    }
}

impl Clone for FileHash {
    /// A clone holds the same bytes.
    fn clone(&self) -> (r: Self)
        ensures
            r@ == self@,
    {
        let bytes = self.bytes.clone();
        proof {
            assert(bytes@ =~= self.bytes@);
        }
        FileHash { bytes }
    }
}

/// Mathematical value of a [`MedicalRecord`], used in contracts.
#[verifier::ext_equal]
pub struct RecordModel {
    /// The principal the record is about.
    pub owner: AccountId,
    /// The principal that submitted the record.
    pub created_by: AccountId,
    /// When the record was committed.
    pub created_at: Moment,
    /// The record's content hash.
    pub hash: Seq<u8>,
}

/// One immutable, content-addressed record reference.
#[derive(Debug, PartialEq, Eq)]
pub struct MedicalRecord {
    /// The principal the record is about.
    pub owner: AccountId,
    /// The principal that submitted the record (typically a doctor).
    pub created_by: AccountId,
    /// When the record was committed, from the host's time source.
    pub created_at: Moment,
    /// The record's content hash.
    pub file_hash: FileHash,
}

impl View for MedicalRecord {
    type V = RecordModel;

    open spec fn view(&self) -> RecordModel {
        RecordModel {
            owner: self.owner,
            created_by: self.created_by,
            created_at: self.created_at,
            hash: self.file_hash@,
        }
    }
}

impl MedicalRecord {
    /// The held hash is within capacity.
    pub open spec fn wf(&self) -> bool {
        self.file_hash.wf()
    }
}

impl Clone for MedicalRecord {
    /// A clone stands for the same record.
    fn clone(&self) -> (r: Self)
        ensures
            r@ == self@,
    {
        MedicalRecord {
            owner: self.owner,
            created_by: self.created_by,
            created_at: self.created_at,
            file_hash: self.file_hash.clone(),
        }
    }
}

/// Why an operation was refused. Every failure leaves all state unchanged.
#[derive(Debug, PartialEq, Eq, Clone, Copy)]
pub enum Error {
    /// A principal tried to grant access to itself; self-access is implicit.
    SelfGrantNotAllowed,
    /// The author holds no grant from the named owner.
    NoPermission,
    /// A record with the same content hash already exists.
    RecordAlreadyExists,
    /// No record with this hash is visible to the caller. Deliberately also
    /// covers "exists, but under another owner", so existence cannot be probed.
    RecordNotFound,
    /// The caller holds no grant from the owner it tried to read.
    AccessDenied,
}

} // verus!
