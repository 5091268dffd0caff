//! The content hash of a blob: the digest that its format's strategy
//! computes, in text form.

use vstd::prelude::*;

use crate::class::{compiled_class_digest, compiled_class_digest_of};
use crate::error::ArtifactError;
use crate::felt::{be_value, content_hash_of, digest_view, field_modulus, hash_view, render_digest};
use crate::format::FormatVersion;
use crate::program::{plain_program_digest, plain_program_digest_of};

verus! {

/// The digest of `blob` under the strategy of `format`.
pub open spec fn digest(blob: Seq<u8>, format: FormatVersion) -> Result<Seq<u8>, ArtifactError> {
    match format {
        FormatVersion::CompiledClass => compiled_class_digest_of(blob),
        FormatVersion::PlainProgram => plain_program_digest_of(blob),
    }
}

/// The content hash of `blob` in `format`.
pub open spec fn content_hash(blob: Seq<u8>, format: FormatVersion) -> Result<
    Seq<char>,
    ArtifactError,
> {
    match digest(blob, format) {
        Ok(bytes) => content_hash_of(bytes),
        Err(e) => Err(e),
    }
}

/// Computes the digest of a blob by the strategy of its format. A digest
/// that comes out writes a number below the field's modulus.
pub fn compute_digest(blob: &[u8], format: FormatVersion) -> (bytes: Result<
    [u8; 32],
    ArtifactError,
>)
    ensures
        digest_view(bytes) == digest(blob@, format),
        bytes matches Ok(d) ==> be_value(d@) < field_modulus(),
{
    match format {
        FormatVersion::CompiledClass => compiled_class_digest(blob),
        FormatVersion::PlainProgram => plain_program_digest(blob),
    }
}

/// Computes the content hash of a blob in the given format. A blob that has
/// a digest has a content hash: the only errors are those of the digest.
pub fn compute_content_hash(blob: &[u8], format: FormatVersion) -> (hash: Result<
    String,
    ArtifactError,
>)
    ensures
        hash_view(hash) == content_hash(blob@, format),
        hash matches Err(e) ==> digest(blob@, format) == Err::<Seq<u8>, ArtifactError>(e),
{
    match compute_digest(blob, format) {
        Ok(bytes) => render_digest(&bytes),
        Err(e) => Err(e),
    }
}

/// The content hash depends on nothing but the blob and its format: two
/// computations over equal bytes in the same format agree, in the text they
/// give as in the error they fail with.
pub proof fn content_hash_is_deterministic(
    blob: Seq<u8>,
    format: FormatVersion,
    first: Result<String, ArtifactError>,
    second: Result<String, ArtifactError>,
)
    requires
        hash_view(first) == content_hash(blob, format),
        hash_view(second) == content_hash(blob, format),
    ensures
        hash_view(first) == hash_view(second),
        first matches Ok(text) ==> second is Ok && second->Ok_0@ == text@,
{
}

} // verus!
