//! A blob made ready for the table: its bytes, its format, and the content
//! hash of the one in the other.

use vstd::prelude::*;

use crate::error::ArtifactError;
use crate::format::FormatVersion;
use crate::hash::{compute_content_hash, content_hash, digest};

verus! {

/// What an upload asks the table to store. The content hash is always the
/// one that the payload has in the format: there is no other way to make an
/// `Upload` than to compute it.
#[derive(Debug)]
pub struct Upload {
    content_hash: String,
    format_version: FormatVersion,
    payload: Vec<u8>,
}

/// The view of an upload: what contracts say of it.
pub struct UploadView {
    pub content_hash: Seq<char>,
    pub format_version: FormatVersion,
    pub payload: Seq<u8>,
}

/// The content hash of `upload` is the one that its payload has in its
/// format.
pub open spec fn is_content_addressed(upload: UploadView) -> bool {
    content_hash(upload.payload, upload.format_version) == Ok::<Seq<char>, ArtifactError>(
        upload.content_hash,
    )
}

/// The upload that `payload` makes in `format`, where it has a content hash
/// there, and else the error that it has instead.
pub open spec fn prepared(payload: Seq<u8>, format: FormatVersion) -> Result<
    UploadView,
    ArtifactError,
> {
    match content_hash(payload, format) {
        Ok(hash) => Ok(UploadView { content_hash: hash, format_version: format, payload }),
        Err(e) => Err(e),
    }
}

/// The upload or the error in `upload`, the upload by its view.
pub open spec fn upload_view(upload: Result<Upload, ArtifactError>) -> Result<
    UploadView,
    ArtifactError,
> {
    match upload {
        Ok(u) => Ok(u@),
        Err(e) => Err(e),
    }
}

impl View for Upload {
    type V = UploadView;

    closed spec fn view(&self) -> UploadView {
        UploadView {
            content_hash: self.content_hash@,
            format_version: self.format_version,
            payload: self.payload@,
        }
    }
}

impl Upload {
    #[verifier::type_invariant]
    spec fn well_formed(self) -> bool {
        is_content_addressed(self@)
    }

    /// Hashes `payload` by the strategy of `format_version`. A payload that
    /// has a digest makes an upload: the only errors are those of the digest.
    pub fn new(payload: Vec<u8>, format_version: FormatVersion) -> (upload: Result<
        Upload,
        ArtifactError,
    >)
        ensures
            upload_view(upload) == prepared(payload@, format_version),
            upload matches Err(e) ==> digest(payload@, format_version) == Err::<
                Seq<u8>,
                ArtifactError,
            >(e),
    {
        match compute_content_hash(payload.as_slice(), format_version) {
            Ok(content_hash) => Ok(Upload { content_hash, format_version, payload }),
            Err(e) => Err(e),
        }
    }

    /// The content hash, which is that of the payload in the format.
    pub fn content_hash(&self) -> (hash: &str)
        ensures
            hash@ == self@.content_hash,
            is_content_addressed(self@),
    {
        proof {
            use_type_invariant(self);
        }
        self.content_hash.as_str()
    }

    pub fn format_version(&self) -> (format: FormatVersion)
        ensures
            format == self@.format_version,
    {
        self.format_version
    }

    pub fn payload(&self) -> (bytes: &[u8])
        ensures
            bytes@ == self@.payload,
    {
        self.payload.as_slice()
    }

    /// Takes the upload apart: content hash, format, payload.
    pub fn into_parts(self) -> (parts: (String, FormatVersion, Vec<u8>))
        ensures
            parts.0@ == self@.content_hash,
            parts.1 == self@.format_version,
            parts.2@ == self@.payload,
            is_content_addressed(self@),
    {
        proof {
            use_type_invariant(&self);
        }
        (self.content_hash, self.format_version, self.payload)
    }
}

} // verus!
