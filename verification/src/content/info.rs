//! What the store knows of one blob.

use crate::content::labels::Labels;
use crate::digest::ImageDigest;
use std::time::SystemTime;
use vstd::prelude::*;

verus! {

/// `std::time::SystemTime`, a point in time: times are carried along and
/// compared for equality, and nothing else is known of them.
#[verifier::external_type_specification]
#[verifier::external_body]
pub struct ExSystemTime(SystemTime);

/// `SystemTime::now`: the time at the moment of the call, of which nothing
/// is known beforehand.
#[verifier::external_body]
pub(crate) fn now() -> SystemTime {
    SystemTime::now()
}

/// What the file system tells of a blob that is there.
#[derive(Clone, Copy, Debug)]
pub struct BlobMeta {
    /// The length of the blob in bytes.
    pub size: u64,
    /// When the blob was created.
    pub created_at: SystemTime,
    /// When the blob was last touched.
    pub modified_at: SystemTime,
}

/// The metadata of one committed blob.
///
/// The digest and the size are fixed when the blob is committed. The labels
/// and the time of the last update change, and only through the store's
/// `update`.
#[derive(Debug)]
pub struct Info {
    pub digest: ImageDigest,
    pub size: u64,
    pub created_at: SystemTime,
    pub updated_at: SystemTime,
    pub labels: Labels,
}

impl Info {
    /// Puts the five parts of a blob's metadata together.
    pub fn new(
        digest: ImageDigest,
        size: u64,
        created_at: SystemTime,
        updated_at: SystemTime,
        labels: Labels,
    ) -> (info: Info)
        ensures
            info.digest == digest,
            info.size == size,
            info.created_at == created_at,
            info.updated_at == updated_at,
            info.labels == labels,
    {
        Info { digest, size, created_at, updated_at, labels }
    }
}

impl Clone for Info {
    fn clone(&self) -> (info: Info)
        ensures
            info.digest@ == self.digest@,
            info.size == self.size,
            info.created_at == self.created_at,
            info.updated_at == self.updated_at,
            info.labels@ == self.labels@,
    {
        Info {
            digest: self.digest.clone(),
            size: self.size,
            created_at: self.created_at,
            updated_at: self.updated_at,
            labels: self.labels.clone(),
        }
    }
}

} // verus!
