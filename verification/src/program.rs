//! The plain-program format: the hash chain over a program's stripped form.
//!
//! A program is loaded from the JSON document that the blob writes. The
//! loader pads hexadecimal texts, adds up decimal digits and negates offsets
//! without looking first, so the document is looked at here, and one that
//! would trip it is no program.

use vstd::prelude::*;
use vstd::slice::slice_to_vec;
use vstd::string::*;
use vstd::utf8::*;

use cairo_vm::program_hash::ProgramHashError;
use cairo_vm::serde::deserialize_program::{parse_program_json, ProgramJson};
use cairo_vm::types::errors::program_errors::ProgramError;
use cairo_vm::types::program::Program;
use cairo_vm::vm::runners::cairo_pie::StrippedProgram;

use crate::error::ArtifactError;
use crate::felt::{be_value, digest_view, field_modulus};
use crate::json::{
    document_of, field, json_field, json_items, json_member_values, json_number_text, json_text,
    member_values, number_text, read_document, referents,
};

verus! {

/// The protocol version that goes into every hash chain.
pub const BOOTLOADER_VERSION: usize = 0;

/// The longest reference text whose brackets the loader can count.
pub const LONGEST_REFERENCE: usize = 0x7fff_ffff;

/// A hexadecimal text can be padded to even length: it has even length
/// already, or a character starts at its third byte, where the padding goes.
pub open spec fn pads_safely(text: Seq<char>) -> bool {
    encode_utf8(text).len() % 2 == 0 || is_char_boundary(encode_utf8(text), 2)
}

/// Every text among `entries` can be padded.
pub open spec fn all_pad_safely(entries: Seq<serde_json::Value>) -> bool {
    forall|i: int|
        0 <= i < entries.len() ==> (json_text(#[trigger] entries[i]) matches Some(text)
            ==> pads_safely(text))
}

/// The `data` of the document, where it is a list, holds no text that cannot
/// be padded.
pub open spec fn data_loads_safely(document: serde_json::Value) -> bool {
    match json_field(document, "data"@, 2) {
        Some(data) => match json_items(data) {
            Some(entries) => all_pad_safely(entries),
            None => true,
        },
        None => true,
    }
}

/// `pattern` stands in `bytes` at `at`.
pub open spec fn stands_at(bytes: Seq<u8>, at: int, pattern: Seq<u8>) -> bool {
    &&& 0 <= at
    &&& at + pattern.len() <= bytes.len()
    &&& bytes.subrange(at, at + pattern.len()) == pattern
}

/// From `from` on, `bytes` hold `zeros` digits `0`, then `pattern`, then a
/// byte from `low` to `high`.
pub open spec fn stands_after_zeros(
    bytes: Seq<u8>,
    from: int,
    zeros: int,
    pattern: Seq<u8>,
    low: u8,
    high: u8,
) -> bool {
    &&& 0 <= from
    &&& 0 <= zeros
    &&& forall|j: int| from <= j < from + zeros ==> j < bytes.len() && bytes[j] == 0x30
    &&& stands_at(bytes, from + zeros, pattern)
    &&& from + zeros + pattern.len() < bytes.len()
    &&& low <= bytes[from + zeros + pattern.len()] <= high
}

/// From `from` on, `bytes` hold some digits `0` or none, then `pattern`,
/// then a byte from `low` to `high`.
pub open spec fn stands_after_some_zeros(
    bytes: Seq<u8>,
    from: int,
    pattern: Seq<u8>,
    low: u8,
    high: u8,
) -> bool {
    exists|zeros: int| #[trigger] stands_after_zeros(bytes, from, zeros, pattern, low, high)
}

/// The digits of the greatest number that can take one more digit and stay
/// below 2^256: those of 2^256 without the last.
pub open spec fn last_sum() -> Seq<u8> {
    "11579208923731619542357098500868790785326998466564056403945758400791312963993".spec_bytes()
}

/// The length of the sign that a number text starts with.
pub open spec fn sign_len(bytes: Seq<u8>) -> int {
    if bytes.len() > 0 && bytes[0] == 0x2d {
        1
    } else {
        0
    }
}

/// Adding up the digits of the number text passes 2^256 in the addition of a
/// digit: after the sign and any digits `0`, the text goes on with the
/// digits of `last_sum` and a digit from `6` to `9`. (On every other text
/// the sum stays below 2^256 or leaves it in the multiplication by ten, which
/// the loader tests.)
pub open spec fn sums_past_limit(bytes: Seq<u8>) -> bool {
    stands_after_some_zeros(bytes, sign_len(bytes), last_sum(), 0x36, 0x39)
}

/// The `value` of an identifier is no object, and where it is a number, the
/// digits of its text can be added up.
pub open spec fn identifier_loads_safely(identifier: serde_json::Value) -> bool {
    match json_field(identifier, "value"@, 2) {
        Some(value) => json_member_values(value) is None && (json_number_text(value) matches Some(
            text,
        ) ==> !sums_past_limit(encode_utf8(text))),
        None => true,
    }
}

pub open spec fn all_identifiers_load_safely(identifiers: Seq<serde_json::Value>) -> bool {
    forall|i: int| 0 <= i < identifiers.len() ==> identifier_loads_safely(#[trigger] identifiers[i])
}

/// Every identifier of the document loads safely.
pub open spec fn identifiers_load_safely(document: serde_json::Value) -> bool {
    match json_field(document, "identifiers"@, 3) {
        Some(identifiers) => match json_member_values(identifiers) {
            Some(values) => all_identifiers_load_safely(values),
            None => true,
        },
        None => true,
    }
}

/// The bytes with which an offset in brackets is negated.
pub open spec fn negation() -> Seq<u8> {
    " - (-".spec_bytes()
}

/// The digits of the one `i32` that has no negative, without its sign.
pub open spec fn least_offset() -> Seq<u8> {
    "2147483648".spec_bytes()
}

/// At `at`, `bytes` negate the least `i32`: they go on with ` - (-`, any
/// digits `0`, the digits of `least_offset`, and `)`.
pub open spec fn negates_least_offset_at(bytes: Seq<u8>, at: int) -> bool {
    stands_at(bytes, at, negation()) && stands_after_some_zeros(
        bytes,
        at + negation().len(),
        least_offset(),
        0x29,
        0x29,
    )
}

/// Somewhere, `bytes` negate the least `i32`.
pub open spec fn negates_least_offset(bytes: Seq<u8>) -> bool {
    exists|at: int| #[trigger] negates_least_offset_at(bytes, at)
}

/// The text of a reference is short enough for its brackets to be counted,
/// and nowhere negates the least `i32`.
pub open spec fn reference_text_is_safe(text: Seq<char>) -> bool {
    encode_utf8(text).len() <= LONGEST_REFERENCE && !negates_least_offset(encode_utf8(text))
}

/// The `value` of a reference, where it is a text, is safe.
pub open spec fn reference_loads_safely(reference: serde_json::Value) -> bool {
    match json_field(reference, "value"@, 2) {
        Some(value) => match json_text(value) {
            Some(text) => reference_text_is_safe(text),
            None => true,
        },
        None => true,
    }
}

pub open spec fn all_references_load_safely(references: Seq<serde_json::Value>) -> bool {
    forall|i: int| 0 <= i < references.len() ==> reference_loads_safely(#[trigger] references[i])
}

/// Every reference of the document loads safely.
pub open spec fn references_load_safely(document: serde_json::Value) -> bool {
    match json_field(document, "reference_manager"@, 5) {
        Some(manager) => match json_field(manager, "references"@, 0) {
            Some(references) => match json_items(references) {
                Some(items) => all_references_load_safely(items),
                None => true,
            },
            None => true,
        },
        None => true,
    }
}

/// The loader can be handed the document: whether it then loads a program
/// or fails, it comes back.
pub open spec fn loads_safely(document: serde_json::Value) -> bool {
    &&& data_loads_safely(document)
    &&& identifiers_load_safely(document)
    &&& references_load_safely(document)
}

/// Whether a hexadecimal text can be padded.
pub fn check_padding(text: &str) -> (safe: bool)
    ensures
        safe == pads_safely(text@),
{
    text.as_bytes().len() % 2 == 0 || text.is_char_boundary(2)
}

/// Whether `pattern` stands in `bytes` at `at`.
pub fn stands(bytes: &[u8], at: usize, pattern: &[u8]) -> (found: bool)
    ensures
        found == stands_at(bytes@, at as int, pattern@),
{
    if pattern.len() > bytes.len() || at > bytes.len() - pattern.len() {
        return false;
    }
    let ghost part = bytes@.subrange(at as int, at + pattern@.len());
    let mut i: usize = 0;
    while i < pattern.len()
        invariant
            at + pattern@.len() <= bytes@.len() <= usize::MAX,
            i <= pattern@.len(),
            part == bytes@.subrange(at as int, at + pattern@.len()),
            forall|j: int| 0 <= j < i ==> part[j] == pattern@[j],
        decreases pattern.len() - i,
    {
        assert(part[i as int] == bytes@[at + i]);
        if bytes[at + i] != pattern[i] {
            return false;
        }
        i = i + 1;
    }
    assert(part =~= pattern@);
    true
}

/// Whether `bytes` hold, from `from` on, some digits `0` or none, then
/// `pattern`, then a byte from `low` to `high`.
pub fn stands_after_zero_run(bytes: &[u8], from: usize, pattern: &[u8], low: u8, high: u8) -> (found:
    bool)
    ensures
        found == stands_after_some_zeros(bytes@, from as int, pattern@, low, high),
{
    let len = bytes.len();
    let mut at: usize = from;
    loop
        invariant
            from <= at,
            len == bytes@.len(),
            forall|j: int| from <= j < at ==> j < bytes@.len() && bytes@[j] == 0x30,
            forall|zeros: int|
                0 <= zeros < at - from ==> !#[trigger] stands_after_zeros(
                    bytes@,
                    from as int,
                    zeros,
                    pattern@,
                    low,
                    high,
                ),
        decreases bytes@.len() - at,
    {
        if stands(bytes, at, pattern) {
            let next = at + pattern.len();
            if next < bytes.len() && low <= bytes[next] && bytes[next] <= high {
                assert(stands_after_zeros(bytes@, from as int, at - from, pattern@, low, high));
                return true;
            }
        }
        assert(!stands_after_zeros(bytes@, from as int, at - from, pattern@, low, high));
        if at < bytes.len() && bytes[at] == 0x30 {
            at = at + 1;
        } else {
            assert forall|zeros: int|
                !#[trigger] stands_after_zeros(
                    bytes@,
                    from as int,
                    zeros,
                    pattern@,
                    low,
                    high,
                ) by {
                if zeros > at - from {
                    assert(from <= at < from + zeros);
                }
            }
            return false;
        }
    }
}

/// Whether the digits of a number text can be added up.
pub fn check_number_text(text: &str) -> (safe: bool)
    ensures
        safe == !sums_past_limit(encode_utf8(text@)),
{
    let bytes = text.as_bytes();
    let start: usize = if bytes.len() > 0 && bytes[0] == 0x2d {
        1
    } else {
        0
    };
    let last =
        "11579208923731619542357098500868790785326998466564056403945758400791312963993".as_bytes();
    !stands_after_zero_run(bytes, start, last, 0x36, 0x39)
}

/// Whether the text of a reference is safe.
pub fn check_reference_text(text: &str) -> (safe: bool)
    ensures
        safe == reference_text_is_safe(text@),
{
    let bytes = text.as_bytes();
    if bytes.len() > LONGEST_REFERENCE {
        return false;
    }
    let opening = " - (-".as_bytes();
    let least = "2147483648".as_bytes();
    let mut at: usize = 0;
    while at < bytes.len()
        invariant
            at <= bytes@.len(),
            bytes@ == encode_utf8(text@),
            opening@ == negation(),
            least@ == least_offset(),
            forall|a: int| 0 <= a < at ==> !#[trigger] negates_least_offset_at(bytes@, a),
        decreases bytes.len() - at,
    {
        if stands(bytes, at, opening) && stands_after_zero_run(
            bytes,
            at + opening.len(),
            least,
            0x29,
            0x29,
        ) {
            assert(negates_least_offset_at(bytes@, at as int));
            return false;
        }
        at = at + 1;
    }
    assert forall|a: int| !#[trigger] negates_least_offset_at(bytes@, a) by {
        if a >= at {
            assert forall|zeros: int|
                !#[trigger] stands_after_zeros(
                    bytes@,
                    a + negation().len(),
                    zeros,
                    least_offset(),
                    0x29,
                    0x29,
                ) by {}
        }
    }
    true
}

/// Whether the `data` of the document loads safely.
pub fn check_data(document: &serde_json::Value) -> (safe: bool)
    ensures
        safe == data_loads_safely(*document),
{
    let entries = match field(document, "data", 2) {
        Some(data) => match data.as_array() {
            Some(entries) => entries,
            None => {
                return true;
            },
        },
        None => {
            return true;
        },
    };
    let mut i: usize = 0;
    while i < entries.len()
        invariant
            i <= entries@.len(),
            data_loads_safely(*document) == all_pad_safely(entries@),
            forall|j: int|
                0 <= j < i ==> (json_text(#[trigger] entries@[j]) matches Some(text)
                    ==> pads_safely(text)),
        decreases entries.len() - i,
    {
        match entries[i].as_str() {
            Some(text) => {
                if !check_padding(text) {
                    return false;
                }
            },
            None => {},
        }
        i = i + 1;
    }
    true
}

/// Whether an identifier loads safely.
pub fn check_identifier(identifier: &serde_json::Value) -> (safe: bool)
    ensures
        safe == identifier_loads_safely(*identifier),
{
    match field(identifier, "value", 2) {
        Some(value) => {
            if member_values(value).is_some() {
                return false;
            }
            match number_text(value) {
                Some(text) => check_number_text(text.as_str()),
                None => true,
            }
        },
        None => true,
    }
}

/// Whether every identifier of the document loads safely.
pub fn check_identifiers(document: &serde_json::Value) -> (safe: bool)
    ensures
        safe == identifiers_load_safely(*document),
{
    let values = match field(document, "identifiers", 3) {
        Some(identifiers) => match member_values(identifiers) {
            Some(values) => values,
            None => {
                return true;
            },
        },
        None => {
            return true;
        },
    };
    let ghost all = referents(values@);
    let mut i: usize = 0;
    while i < values.len()
        invariant
            i <= values@.len(),
            all == referents(values@),
            identifiers_load_safely(*document) == all_identifiers_load_safely(all),
            forall|j: int| 0 <= j < i ==> identifier_loads_safely(#[trigger] all[j]),
        decreases values.len() - i,
    {
        assert(all[i as int] == *values@[i as int]);
        if !check_identifier(values[i]) {
            return false;
        }
        i = i + 1;
    }
    true
}

/// Whether a reference loads safely.
pub fn check_reference(reference: &serde_json::Value) -> (safe: bool)
    ensures
        safe == reference_loads_safely(*reference),
{
    match field(reference, "value", 2) {
        Some(value) => match value.as_str() {
            Some(text) => check_reference_text(text),
            None => true,
        },
        None => true,
    }
}

/// Whether every reference of the document loads safely.
pub fn check_references(document: &serde_json::Value) -> (safe: bool)
    ensures
        safe == references_load_safely(*document),
{
    let items = match field(document, "reference_manager", 5) {
        Some(manager) => match field(manager, "references", 0) {
            Some(references) => match references.as_array() {
                Some(items) => items,
                None => {
                    return true;
                },
            },
            None => {
                return true;
            },
        },
        None => {
            return true;
        },
    };
    let mut i: usize = 0;
    while i < items.len()
        invariant
            i <= items@.len(),
            references_load_safely(*document) == all_references_load_safely(items@),
            forall|j: int| 0 <= j < i ==> reference_loads_safely(#[trigger] items@[j]),
        decreases items.len() - i,
    {
        if !check_reference(&items[i]) {
            return false;
        }
        i = i + 1;
    }
    true
}

/// Whether the loader can be handed the document.
pub fn check_document(document: &serde_json::Value) -> (safe: bool)
    ensures
        safe == loads_safely(*document),
{
    check_data(document) && check_identifiers(document) && check_references(document)
}

/// `ProgramJson`, opaque here: a program as its document holds it.
#[verifier::external_type_specification]
#[verifier::external_body]
pub struct ExProgramJson(ProgramJson);

/// `cairo_vm`'s `Program`, opaque here: a program as its crate loads it.
#[verifier::external_type_specification]
#[verifier::external_body]
pub struct ExProgram(Program);

/// `StrippedProgram`, opaque here: a program without what is no part of its
/// meaning.
#[verifier::external_type_specification]
#[verifier::external_body]
pub struct ExStrippedProgram(StrippedProgram);

/// `ProgramError`, opaque here: why a program did not load or strip.
#[verifier::external_type_specification]
#[verifier::external_body]
pub struct ExProgramError(ProgramError);

/// `ProgramHashError`, opaque here: why no hash chain was computed.
#[verifier::external_type_specification]
#[verifier::external_body]
pub struct ExProgramHashError(ProgramHashError);

/// The program that `document` holds, where it holds one: what
/// `serde_json::from_value` reads it to.
pub uninterp spec fn program_json_of(document: serde_json::Value) -> Option<ProgramJson>;

/// The program that is loaded from what a document holds, with the given
/// entry point, where one is: what `parse_program_json` returns.
pub uninterp spec fn loaded_program(program: ProgramJson, entrypoint: Option<Seq<char>>) -> Option<
    Program,
>;

/// The stripped form of `program`, where it has one: what
/// `Program::get_stripped_program` returns.
pub uninterp spec fn stripped_program_of(program: Program) -> Option<StrippedProgram>;

/// The hash chain over a stripped program and a protocol version, as 32
/// big-endian bytes, where it is defined: what `compute_program_hash_chain`
/// computes.
pub uninterp spec fn program_hash_chain_of(program: StrippedProgram, version: usize) -> Option<
    Seq<u8>,
>;

/// The characters of an optional text.
pub open spec fn optional_text(text: Option<&str>) -> Option<Seq<char>> {
    match text {
        Some(t) => Some(t@),
        None => None,
    }
}

/// `serde_json::from_value` at type `ProgramJson`: succeeds exactly on the
/// documents that `program_json_of` knows, with that program. On its way the
/// outside code inserts a character at the third byte of every text of odd
/// length in `data`, adds up the digits of every identifier's `value`, and
/// negates the offsets of every reference: `loads_safely` leaves out the
/// documents on which one of these panics, among them every document with
/// an identifier whose `value` is an object, which the outside code may take
/// for a number of any length.
#[verifier::external_body]
fn program_json(document: serde_json::Value) -> (read: Result<ProgramJson, serde_json::Error>)
    requires
        loads_safely(document),
    ensures
        match read {
            Ok(program) => program_json_of(document) == Some(program),
            Err(_) => program_json_of(document) is None,
        },
{
    serde_json::from_value(document)
}

/// `parse_program_json`: succeeds exactly on the programs and entry points
/// that `loaded_program` knows, with that program.
pub assume_specification[ parse_program_json ](
    program_json: ProgramJson,
    entrypoint: Option<&str>,
) -> (loaded: Result<Program, ProgramError>)
    ensures
        match loaded {
            Ok(program) => loaded_program(program_json, optional_text(entrypoint)) == Some(
                program,
            ),
            Err(_) => loaded_program(program_json, optional_text(entrypoint)) is None,
        },
;

/// `Program::get_stripped_program`: succeeds exactly on the programs that
/// have a stripped form, with that form.
pub assume_specification[ Program::get_stripped_program ](program: &Program) -> (stripped: Result<
    StrippedProgram,
    ProgramError,
>)
    ensures
        match stripped {
            Ok(s) => stripped_program_of(*program) == Some(s),
            Err(_) => stripped_program_of(*program) is None,
        },
;

/// `compute_program_hash_chain`, its field element turned into 32 big-endian
/// bytes by `Felt::to_bytes_be`, which write a number below the modulus.
#[verifier::external_body]
fn program_hash_chain(program: &StrippedProgram, version: usize) -> (digest: Result<
    [u8; 32],
    ProgramHashError,
>)
    ensures
        match digest {
            Ok(bytes) => program_hash_chain_of(*program, version) == Some(bytes@) && be_value(
                bytes@,
            ) < field_modulus(),
            Err(_) => program_hash_chain_of(*program, version) is None,
        },
{
    cairo_vm::program_hash::compute_program_hash_chain(program, version).map(
        |felt| felt.to_bytes_be(),
    )
}

/// The digest of the program that `document` holds.
pub open spec fn document_digest_of(document: serde_json::Value) -> Result<Seq<u8>, ArtifactError> {
    if !loads_safely(document) {
        Err(ArtifactError::Parse)
    } else {
        match program_json_of(document) {
            None => Err(ArtifactError::Parse),
            Some(read) => match loaded_program(read, Some("main"@)) {
                None => Err(ArtifactError::Parse),
                Some(program) => match stripped_program_of(program) {
                    None => Err(ArtifactError::Parse),
                    Some(stripped) => match program_hash_chain_of(stripped, BOOTLOADER_VERSION) {
                        None => Err(ArtifactError::Hash),
                        Some(digest) => Ok(digest),
                    },
                },
            },
        }
    }
}

/// The digest of a blob in the plain-program format: `Parse` where the blob
/// is no JSON document, where the document cannot be handed to the loader,
/// and where it holds no program with an entry point `main`; `Hash` where no
/// chain can be computed over the program's stripped form.
pub open spec fn plain_program_digest_of(blob: Seq<u8>) -> Result<Seq<u8>, ArtifactError> {
    match document_of(blob) {
        None => Err(ArtifactError::Parse),
        Some(document) => document_digest_of(document),
    }
}

/// Loads the program that a document holds, strips it, and computes the
/// hash chain over what is left. A digest that comes out writes a number
/// below the field's modulus.
pub fn document_digest(document: serde_json::Value) -> (digest: Result<[u8; 32], ArtifactError>)
    ensures
        digest_view(digest) == document_digest_of(document),
        digest matches Ok(bytes) ==> be_value(bytes@) < field_modulus(),
{
    if !check_document(&document) {
        return Err(ArtifactError::Parse);
    }
    let read = match program_json(document) {
        Ok(read) => read,
        Err(_) => {
            return Err(ArtifactError::Parse);
        },
    };
    let program = match parse_program_json(read, Some("main")) {
        Ok(program) => program,
        Err(_) => {
            return Err(ArtifactError::Parse);
        },
    };
    let stripped = match program.get_stripped_program() {
        Ok(stripped) => stripped,
        Err(_) => {
            return Err(ArtifactError::Parse);
        },
    };
    match program_hash_chain(&stripped, BOOTLOADER_VERSION) {
        Ok(digest) => Ok(digest),
        Err(_) => Err(ArtifactError::Hash),
    }
}

/// Reads a blob as a program and computes its digest. A digest that comes
/// out writes a number below the field's modulus.
pub fn plain_program_digest(blob: &[u8]) -> (digest: Result<[u8; 32], ArtifactError>)
    ensures
        digest_view(digest) == plain_program_digest_of(blob@),
        digest matches Ok(bytes) ==> be_value(bytes@) < field_modulus(),
{
    match read_document(slice_to_vec(blob)) {
        Some(document) => document_digest(document),
        None => Err(ArtifactError::Parse),
    }
}

} // verus!
