//! The closed set of artifact formats, and how a blob names its own.

use vstd::prelude::*;
use vstd::slice::slice_to_vec;

use crate::error::ArtifactError;
use crate::json::{declared_version, get_compiler_version};
use crate::version::{major_version, read_major_version};

verus! {

/// Which canonicalisation and hash a blob is subject to.
#[derive(Clone, Copy, Debug, PartialEq, Eq, Structural)]
pub enum FormatVersion {
    /// A plain program, hashed by the chain over its stripped form.
    PlainProgram,
    /// A compiled class, hashed by its compiled-class hash.
    CompiledClass,
}

impl FormatVersion {
    /// The integer under which the format is recorded: the major version
    /// that names it.
    pub open spec fn spec_tag(self) -> i32 {
        match self {
            FormatVersion::PlainProgram => 0,
            FormatVersion::CompiledClass => 2,
        }
    }

    #[verifier::when_used_as_spec(spec_tag)]
    pub fn tag(self) -> (tag: i32)
        ensures
            tag == self.spec_tag(),
    {
        match self {
            FormatVersion::PlainProgram => 0,
            FormatVersion::CompiledClass => 2,
        }
    }
}

/// The format that a major version names: `2` the compiled class, `0` the
/// plain program, and no other.
pub open spec fn format_of_major(major: i32) -> Result<FormatVersion, ArtifactError> {
    if major == 2 {
        Ok(FormatVersion::CompiledClass)
    } else if major == 0 {
        Ok(FormatVersion::PlainProgram)
    } else {
        Err(ArtifactError::UnsupportedFormat { major })
    }
}

/// The major version that goes with a declared version text: that of the
/// text, and `0` where the blob declares none.
pub open spec fn major_of_version(version: Option<Seq<char>>) -> Result<i32, ArtifactError> {
    match version {
        None => Ok(0i32),
        Some(text) => match major_version(text) {
            Some(major) => Ok(major),
            None => Err(ArtifactError::Classification),
        },
    }
}

/// The major version that a blob declares.
pub open spec fn declared_major(blob: Seq<u8>) -> Result<i32, ArtifactError> {
    match declared_version(blob) {
        Ok(version) => major_of_version(version),
        Err(e) => Err(e),
    }
}

/// The format of a blob, by its own metadata.
pub open spec fn classification(blob: Seq<u8>) -> Result<FormatVersion, ArtifactError> {
    match declared_major(blob) {
        Ok(major) => format_of_major(major),
        Err(e) => Err(e),
    }
}

/// The format that `major` names, or `UnsupportedFormat` with that major.
pub fn format_for_major(major: i32) -> (format: Result<FormatVersion, ArtifactError>)
    ensures
        format == format_of_major(major),
{
    if major == 2 {
        Ok(FormatVersion::CompiledClass)
    } else if major == 0 {
        Ok(FormatVersion::PlainProgram)
    } else {
        Err(ArtifactError::UnsupportedFormat { major })
    }
}

/// The major version for a version text as read from a blob, `None` standing
/// for a blob that declares no version.
pub fn major_for_version(version: Option<&str>) -> (major: Result<i32, ArtifactError>)
    ensures
        major == major_of_version(
            match version {
                Some(text) => Some(text@),
                None => None,
            },
        ),
{
    match version {
        None => Ok(0),
        Some(text) => match read_major_version(text) {
            Some(major) => Ok(major),
            None => Err(ArtifactError::Classification),
        },
    }
}

/// Reads the major version that a blob declares.
pub fn read_declared_major(blob: &[u8]) -> (major: Result<i32, ArtifactError>)
    ensures
        major == declared_major(blob@),
{
    match get_compiler_version(slice_to_vec(blob)) {
        Err(e) => Err(e),
        Ok(None) => major_for_version(None),
        Ok(Some(text)) => major_for_version(Some(text.as_str())),
    }
}

/// Classifies a blob by its own metadata, without reading anything else of it.
pub fn classify(blob: &[u8]) -> (format: Result<FormatVersion, ArtifactError>)
    ensures
        format == classification(blob@),
{
    match read_declared_major(blob) {
        Ok(major) => format_for_major(major),
        Err(e) => Err(e),
    }
}

/// The integer under which a format is recorded names that format again.
pub proof fn tag_names_its_format(format: FormatVersion)
    ensures
        format_of_major(format.spec_tag()) == Ok::<FormatVersion, ArtifactError>(format),
{
}

/// Where the boundary between the formats runs. A blob whose version text has
/// the major component `2` is a compiled class. A blob that declares no
/// version is a plain program, and so is one whose major component is `0`.
/// Every other major component is unsupported; a version text without one is
/// malformed, and so is a blob whose metadata cannot be read.
pub proof fn classification_boundary(blob: Seq<u8>)
    ensures
        match declared_version(blob) {
            Ok(None) => classification(blob) == Ok::<FormatVersion, ArtifactError>(
                FormatVersion::PlainProgram,
            ),
            Ok(Some(text)) => match major_version(text) {
                Some(major) => classification(blob) == (if major == 2 {
                    Ok::<FormatVersion, ArtifactError>(FormatVersion::CompiledClass)
                } else if major == 0 {
                    Ok::<FormatVersion, ArtifactError>(FormatVersion::PlainProgram)
                } else {
                    Err::<FormatVersion, ArtifactError>(ArtifactError::UnsupportedFormat { major })
                }),
                None => classification(blob) == Err::<FormatVersion, ArtifactError>(
                    ArtifactError::Classification,
                ),
            },
            Err(e) => classification(blob) == Err::<FormatVersion, ArtifactError>(e),
        },
{
}

} // verus!
