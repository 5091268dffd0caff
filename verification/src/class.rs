//! The compiled-class format: what a compiled class is hashed over, when
//! that hash is defined, and the hash itself.

use vstd::prelude::*;

use cairo_lang_starknet_classes::casm_contract_class::CasmContractClass;
use cairo_lang_starknet_classes::NestedIntList;

use crate::error::ArtifactError;
use crate::felt::{be_value, digest_view, field_modulus, is_field_element, writes_field_element};
use crate::segments::{covers, leaf_sum, SegmentLengths};

verus! {

/// What the hash reads of one entry point and turns into field elements.
#[derive(Debug)]
pub struct EntryPointOperands {
    /// The selector, as a big-endian number without leading zeros.
    pub selector: Vec<u8>,
    /// The bytes of each builtin's name.
    pub builtins: Vec<Vec<u8>>,
}

/// What the hash reads of a compiled class and turns into field elements.
#[derive(Debug)]
pub struct ClassOperands {
    /// Each bytecode word, as a big-endian number without leading zeros.
    pub bytecode: Vec<Vec<u8>>,
    pub external: Vec<EntryPointOperands>,
    pub l1_handler: Vec<EntryPointOperands>,
    pub constructor: Vec<EntryPointOperands>,
}

pub open spec fn all_field_elements(items: Seq<Vec<u8>>) -> bool {
    forall|i: int| 0 <= i < items.len() ==> writes_field_element(#[trigger] items[i]@)
}

impl EntryPointOperands {
    /// The selector and every builtin name are field elements.
    pub open spec fn hashable(self) -> bool {
        writes_field_element(self.selector@) && all_field_elements(self.builtins@)
    }
}

pub open spec fn all_hashable(points: Seq<EntryPointOperands>) -> bool {
    forall|i: int| 0 <= i < points.len() ==> (#[trigger] points[i]).hashable()
}

impl ClassOperands {
    /// Every operand is a field element.
    pub open spec fn hashable(self) -> bool {
        &&& all_field_elements(self.bytecode@)
        &&& all_hashable(self.external@)
        &&& all_hashable(self.l1_handler@)
        &&& all_hashable(self.constructor@)
    }
}

/// Whether every item is a field element.
pub fn check_field_elements(items: &Vec<Vec<u8>>) -> (all: bool)
    ensures
        all == all_field_elements(items@),
{
    let mut i: usize = 0;
    while i < items.len()
        invariant
            i <= items.len(),
            forall|j: int| 0 <= j < i ==> writes_field_element(#[trigger] items@[j]@),
        decreases items.len() - i,
    {
        if !is_field_element(items[i].as_slice()) {
            return false;
        }
        i = i + 1;
    }
    true
}

/// Whether every entry point is hashable.
pub fn check_entry_points(points: &Vec<EntryPointOperands>) -> (all: bool)
    ensures
        all == all_hashable(points@),
{
    let mut i: usize = 0;
    while i < points.len()
        invariant
            i <= points.len(),
            forall|j: int| 0 <= j < i ==> (#[trigger] points@[j]).hashable(),
        decreases points.len() - i,
    {
        let point = &points[i];
        if !is_field_element(point.selector.as_slice()) || !check_field_elements(&point.builtins) {
            return false;
        }
        i = i + 1;
    }
    true
}

/// Whether every operand of the class is a field element.
pub fn check_operands(operands: &ClassOperands) -> (all: bool)
    ensures
        all == operands.hashable(),
{
    check_field_elements(&operands.bytecode) && check_entry_points(&operands.external)
        && check_entry_points(&operands.l1_handler) && check_entry_points(&operands.constructor)
}

/// `CasmContractClass`, opaque here: a compiled class as its crate parses it.
#[verifier::external_type_specification]
#[verifier::external_body]
pub struct ExCasmContractClass(CasmContractClass);

/// `NestedIntList`, opaque here: the segment lengths as a compiled class
/// holds them.
#[verifier::external_type_specification]
#[verifier::external_body]
pub struct ExNestedIntList(NestedIntList);

/// The compiled class that `blob` writes in JSON, where it writes one: what
/// `serde_json::from_slice` parses it to.
pub uninterp spec fn casm_class(blob: Seq<u8>) -> Option<CasmContractClass>;

/// The bytecode words, selectors and builtin names of `class`, as bytes.
pub uninterp spec fn class_operands_of(class: CasmContractClass) -> ClassOperands;

/// The segment lengths of the bytecode of `class`: what
/// `CasmContractClass::get_bytecode_segment_lengths` returns.
pub uninterp spec fn class_segments_of(class: CasmContractClass) -> NestedIntList;

/// The tree that `list` holds.
pub uninterp spec fn segment_lengths_of(list: NestedIntList) -> SegmentLengths;

/// The compiled-class hash of `class`, as 32 big-endian bytes: what
/// `CasmContractClass::compiled_class_hash` computes.
pub uninterp spec fn compiled_class_hash_of(class: CasmContractClass) -> Seq<u8>;

/// `serde_json::from_slice` at type `CasmContractClass`: succeeds exactly on
/// the blobs that `casm_class` knows, with that class.
#[verifier::external_body]
fn parse_class(blob: &[u8]) -> (parsed: Result<CasmContractClass, serde_json::Error>)
    ensures
        match parsed {
            Ok(class) => casm_class(blob@) == Some(class),
            Err(_) => casm_class(blob@) is None,
        },
{
    serde_json::from_slice(blob)
}

/// Copies out of `class` what its hash turns into field elements: each
/// bytecode word and selector by `BigUint::to_bytes_be`, each builtin name by
/// `String::as_bytes`.
#[verifier::external_body]
fn class_operands(class: &CasmContractClass) -> (operands: ClassOperands)
    ensures
        operands == class_operands_of(*class),
{
    let point = |p: &cairo_lang_starknet_classes::casm_contract_class::CasmContractEntryPoint| {
        EntryPointOperands {
            selector: p.selector.to_bytes_be(),
            builtins: p.builtins.iter().map(|b| b.as_bytes().to_vec()).collect(),
        }
    };
    let points = &class.entry_points_by_type;
    ClassOperands {
        bytecode: class.bytecode.iter().map(|word| word.value.to_bytes_be()).collect(),
        external: points.external.iter().map(point).collect(),
        l1_handler: points.l1_handler.iter().map(point).collect(),
        constructor: points.constructor.iter().map(point).collect(),
    }
}

/// `CasmContractClass::get_bytecode_segment_lengths`: the segment lengths
/// that the class holds, and one segment of all its bytecode where it holds
/// none.
pub assume_specification[ CasmContractClass::get_bytecode_segment_lengths ](
    class: &CasmContractClass,
) -> (list: NestedIntList)
    ensures
        list == class_segments_of(*class),
;

/// Copies the tree out of a `NestedIntList`, variant for variant.
#[verifier::external_body]
fn segment_lengths(list: &NestedIntList) -> (lengths: SegmentLengths)
    ensures
        lengths == segment_lengths_of(*list),
{
    match list {
        NestedIntList::Leaf(length) => SegmentLengths::Leaf(*length),
        NestedIntList::Node(nodes) => SegmentLengths::Node(
            nodes.iter().map(segment_lengths).collect(),
        ),
    }
}

/// The hash of `class` is defined: every operand is a field element, and the
/// segment lengths account for every bytecode word, no more and no fewer.
pub open spec fn class_is_hashable(class: CasmContractClass) -> bool {
    &&& class_operands_of(class).hashable()
    &&& leaf_sum(segment_lengths_of(class_segments_of(class))) == class_operands_of(
        class,
    ).bytecode@.len()
}

/// `CasmContractClass::compiled_class_hash`, as 32 big-endian bytes. The
/// outside function unwraps the conversion of every operand to a field
/// element and asserts that the segment lengths add up to the bytecode's
/// length: `class_is_hashable` leaves the other classes out. The hash is a
/// field element, so its bytes write a number below the modulus.
#[verifier::external_body]
fn class_digest(class: &CasmContractClass) -> (digest: [u8; 32])
    requires
        class_is_hashable(*class),
    ensures
        digest@ == compiled_class_hash_of(*class),
        be_value(digest@) < field_modulus(),
{
    class.compiled_class_hash().to_be_bytes()
}

/// The digest of a blob in the compiled-class format: `Parse` where the blob
/// is no compiled class or its hash is not defined.
pub open spec fn compiled_class_digest_of(blob: Seq<u8>) -> Result<Seq<u8>, ArtifactError> {
    match casm_class(blob) {
        Some(class) if class_is_hashable(class) => Ok(compiled_class_hash_of(class)),
        _ => Err(ArtifactError::Parse),
    }
}

/// Parses a blob as a compiled class and computes its compiled-class hash.
/// A digest that comes out writes a number below the field's modulus.
pub fn compiled_class_digest(blob: &[u8]) -> (digest: Result<[u8; 32], ArtifactError>)
    ensures
        digest_view(digest) == compiled_class_digest_of(blob@),
        digest matches Ok(bytes) ==> be_value(bytes@) < field_modulus(),
{
    let class = match parse_class(blob) {
        Ok(class) => class,
        Err(_) => {
            return Err(ArtifactError::Parse);
        },
    };
    let operands = class_operands(&class);
    let lengths = segment_lengths(&class.get_bytecode_segment_lengths());
    if check_operands(&operands) && covers(&lengths, operands.bytecode.len()) {
        Ok(class_digest(&class))
    } else {
        Err(ArtifactError::Parse)
    }
}

} // verus!
