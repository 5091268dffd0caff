//! What can go wrong between receiving a blob and serving it back.

use vstd::prelude::*;

verus! {

/// Why an upload or a download did not succeed.
#[derive(Clone, Copy, Debug, PartialEq, Eq, Structural)]
pub enum ArtifactError {
    /// The blob's format metadata is malformed: it is not UTF-8, not JSON, its
    /// version field is not a string, or the major component of that string is
    /// not an integer.
    Classification,
    /// The blob declares a major version that names no known format.
    UnsupportedFormat { major: i32 },
    /// The blob is not a well-formed artifact of the format it declares.
    Parse,
    /// The blob was read, but no digest could be computed or rendered for it.
    Hash,
    /// No artifact is stored under the requested content hash.
    NotFound,
    /// The persistence layer failed; nothing is retried here.
    Storage,
}

impl ArtifactError {
    /// The HTTP status under which the error is reported: malformed or
    /// unsupported format metadata is the client's to correct, everything
    /// else is reported as a failure of the server.
    pub open spec fn spec_status(self) -> u16 {
        match self {
            ArtifactError::Classification => 400,
            ArtifactError::UnsupportedFormat { .. } => 400,
            ArtifactError::Parse => 500,
            ArtifactError::Hash => 500,
            ArtifactError::NotFound => 500,
            ArtifactError::Storage => 500,
        }
    }

    #[verifier::when_used_as_spec(spec_status)]
    pub fn status(self) -> (code: u16)
        ensures
            code == self.spec_status(),
    {
        match self {
            ArtifactError::Classification => 400,
            ArtifactError::UnsupportedFormat { .. } => 400,
            ArtifactError::Parse => 500,
            ArtifactError::Hash => 500,
            ArtifactError::NotFound => 500,
            ArtifactError::Storage => 500,
        }
    }
}

/// The HTTP status of an answer: 200 for success, the error's own otherwise.
pub open spec fn status_of<T>(answer: Result<T, ArtifactError>) -> u16 {
    match answer {
        Ok(_) => 200,
        Err(e) => e.spec_status(),
    }
}

/// The HTTP status under which an answer goes out.
pub fn response_status<T>(answer: &Result<T, ArtifactError>) -> (code: u16)
    ensures
        code == status_of(*answer),
{
    match answer {
        Ok(_) => 200,
        Err(e) => e.status(),
    }
}

} // verus!
