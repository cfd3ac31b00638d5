//! The failures that end a lock operation.

use vstd::prelude::*;

verus! {

/// Why an environment could not be locked. Every one of these is fatal: the
/// operation stops and no lock file is written.
///
/// Two conditions are not among them, because the operation goes on: a
/// package whose URL names no channel is recorded without one, and a package
/// whose subdirectory names no platform is passed over when the platform is
/// inferred.
#[derive(Debug, Clone, Copy, PartialEq, Eq, Structural)]
pub enum LockError {
    /// The prefix or the environment inside it could not be enumerated.
    ScanFailure,
    /// The metadata file of a distribution could not be read.
    MetadataUnreadable,
    /// The metadata file of a distribution is no valid wheel metadata.
    MetadataMalformed,
    /// The package index could not be reached or asked.
    IndexQueryFailure,
    /// The index has no wheel for the exact version that is installed: the
    /// environment is most likely corrupted.
    ArtifactNotFound,
    /// The lock model could not be rendered as text.
    SerializationFailure,
}

impl LockError {
    /// What went wrong, in words.
    pub fn message(&self) -> (r: &'static str)
        ensures
            r@ == message_of(*self),
    {
        match self {
            LockError::ScanFailure => "failed to find distributions in the environment",
            LockError::MetadataUnreadable => "failed to read metadata file",
            LockError::MetadataMalformed => "failed to parse metadata",
            LockError::IndexQueryFailure => "failed to ask the package index",
            LockError::ArtifactNotFound => "unable to generate lock file because of missing information: the environment is most likely corrupted",
            LockError::SerializationFailure => "failed to render the lock file",
        }
    }
}

/// The words for each failure.
pub open spec fn message_of(error: LockError) -> Seq<char> {
    match error {
        LockError::ScanFailure => "failed to find distributions in the environment"@,
        LockError::MetadataUnreadable => "failed to read metadata file"@,
        LockError::MetadataMalformed => "failed to parse metadata"@,
        LockError::IndexQueryFailure => "failed to ask the package index"@,
        LockError::ArtifactNotFound => "unable to generate lock file because of missing information: the environment is most likely corrupted"@,
        LockError::SerializationFailure => "failed to render the lock file"@,
    }
}

} // verus!
