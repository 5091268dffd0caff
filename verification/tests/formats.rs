use artifact_store::class::{
    check_entry_points, check_field_elements, check_operands, compiled_class_digest,
    ClassOperands, EntryPointOperands,
};
use artifact_store::error::ArtifactError;
use artifact_store::felt::{is_field_element, render_digest};
use artifact_store::format::{
    classify, format_for_major, major_for_version, read_declared_major, FormatVersion,
};
use artifact_store::hash::compute_digest;
use artifact_store::json::get_compiler_version;
use artifact_store::program::{
    check_document, check_identifier, check_number_text, check_padding, check_reference_text,
    document_digest, plain_program_digest, stands, stands_after_zero_run,
};
use artifact_store::segments::{covers, take_segments, SegmentLengths};
use artifact_store::version::{read_decimal_i32, read_major_text, read_major_version};

const EMPTY_CLASS: &str = r#"{"prime":"0x800000000000011000000000000000000000000000000000000000000000001","compiler_version":"2.1.0","bytecode":[],"hints":[],"entry_points_by_type":{"EXTERNAL":[],"L1_HANDLER":[],"CONSTRUCTOR":[]}}"#;

const SMALL_PROGRAM: &str = r#"{"attributes":[],"builtins":[],"compiler_version":"0.11.0","data":["0x208b7fff7fff7ffe"],"debug_info":null,"hints":{},"identifiers":{"__main__.main":{"decorators":[],"pc":0,"type":"function"}},"main_scope":"__main__","prime":"0x800000000000011000000000000000000000000000000000000000000000001","reference_manager":{"references":[]}}"#;

#[test]
fn major_version_of_plain_texts() {
    assert_eq!(read_major_version("2.1.0"), Some(2));
    assert_eq!(read_major_version("0.11.0"), Some(0));
    assert_eq!(read_major_version("5.0.0"), Some(5));
    assert_eq!(read_major_version("12"), Some(12));
    assert_eq!(read_major_version(""), None);
    assert_eq!(read_major_version(".1"), None);
    assert_eq!(read_major_version("v2.0"), None);
}

#[test]
fn major_version_agrees_with_std_parse() {
    let samples = [
        "0", "2", "-0", "+2", "-", "+", "", "002", "2147483647", "2147483648", "-2147483648",
        "-2147483649", "99999999999999999999999", "-99999999999999999999999", "0000000000000000000002",
        " 2", "2 ", "2a", "a2", "--2", "+-2", "1_000", "٢", "2.x", "x.2",
    ];
    for text in samples {
        let major = text.split('.').collect::<Vec<&str>>()[0].parse::<i32>().ok();
        assert_eq!(read_major_version(text), major, "{:?}", text);
    }
}

#[test]
fn compiler_version_is_read_from_json() {
    assert_eq!(
        get_compiler_version(br#"{"compiler_version":"2.1.0"}"#.to_vec()),
        Ok(Some("2.1.0".to_string()))
    );
    assert_eq!(get_compiler_version(br#"{"data":[]}"#.to_vec()), Ok(None));
    assert_eq!(get_compiler_version(br#"[1,2]"#.to_vec()), Ok(None));
    assert_eq!(
        get_compiler_version(br#"{"compiler_version":2}"#.to_vec()),
        Err(ArtifactError::Classification)
    );
    assert_eq!(get_compiler_version(b"{".to_vec()), Err(ArtifactError::Classification));
    assert_eq!(
        get_compiler_version(vec![b'"', 0xff, b'"']),
        Err(ArtifactError::Classification)
    );
}

#[test]
fn classification_follows_the_major_version() {
    assert_eq!(classify(br#"{"compiler_version":"2.1.0"}"#), Ok(FormatVersion::CompiledClass));
    assert_eq!(classify(br#"{"compiler_version":"0.11.0"}"#), Ok(FormatVersion::PlainProgram));
    assert_eq!(classify(br#"{"data":[]}"#), Ok(FormatVersion::PlainProgram));
    assert_eq!(
        classify(br#"{"compiler_version":"5.0.0"}"#),
        Err(ArtifactError::UnsupportedFormat { major: 5 })
    );
    assert_eq!(
        classify(br#"{"compiler_version":"-2.0.0"}"#),
        Err(ArtifactError::UnsupportedFormat { major: -2 })
    );
    assert_eq!(classify(br#"{"compiler_version":"two"}"#), Err(ArtifactError::Classification));
    assert_eq!(classify(b"not json"), Err(ArtifactError::Classification));
}

#[test]
fn field_elements_are_below_the_modulus() {
    let mut modulus = [0u8; 32];
    modulus[0] = 0x08;
    modulus[7] = 0x11;
    modulus[31] = 0x01;
    assert!(!is_field_element(&modulus));
    let mut below = modulus;
    below[31] = 0x00;
    assert!(is_field_element(&below));
    let mut above = modulus;
    above[31] = 0x02;
    assert!(!is_field_element(&above));
    assert!(is_field_element(&[]));
    assert!(is_field_element(&[0xff; 16]));
    assert!(is_field_element(&[0xff; 31]));
    assert!(!is_field_element(&[0xff; 32]));
    assert!(!is_field_element(&[0u8; 33]));
    let mut high = [0u8; 32];
    high[0] = 0x07;
    for b in high.iter_mut().skip(1) {
        *b = 0xff;
    }
    assert!(is_field_element(&high));
    for len in 0..40usize {
        for fill in [0x00u8, 0x01, 0x08, 0x11, 0xff] {
            let bytes = vec![fill; len];
            assert_eq!(
                is_field_element(&bytes),
                starknet_crypto::FieldElement::from_byte_slice_be(&bytes).is_ok(),
                "{} bytes of {:#x}",
                len,
                fill
            );
        }
    }
}

#[test]
fn digests_render_as_marked_hexadecimal() {
    assert_eq!(render_digest(&[0u8; 32]), Ok("0x0".to_string()));
    let mut one = [0u8; 32];
    one[31] = 1;
    assert_eq!(render_digest(&one), Ok("0x1".to_string()));
    let mut wide = [0u8; 32];
    wide[30] = 0xde;
    wide[31] = 0xad;
    assert_eq!(render_digest(&wide), Ok("0xdead".to_string()));
    let mut padded = [0u8; 32];
    padded[30] = 0x0a;
    padded[31] = 0x0b;
    assert_eq!(render_digest(&padded), Ok("0xa0b".to_string()));
    let mut modulus = [0u8; 32];
    modulus[0] = 0x08;
    modulus[7] = 0x11;
    modulus[31] = 0x01;
    assert_eq!(render_digest(&modulus), Err(ArtifactError::Hash));
    modulus[31] = 0x00;
    assert_eq!(
        render_digest(&modulus),
        Ok("0x800000000000011000000000000000000000000000000000000000000000000".to_string())
    );
}

#[test]
fn compiled_class_digest_is_the_outside_hash() {
    let class: cairo_lang_starknet_classes::casm_contract_class::CasmContractClass =
        serde_json::from_str(EMPTY_CLASS).unwrap();
    let expected = class.compiled_class_hash().to_be_bytes();
    assert_eq!(compiled_class_digest(EMPTY_CLASS.as_bytes()), Ok(expected));
    assert_ne!(expected.to_vec(), EMPTY_CLASS.as_bytes().to_vec());
}

#[test]
fn plain_program_digest_is_the_outside_hash() {
    let program =
        cairo_vm::types::program::Program::from_bytes(SMALL_PROGRAM.as_bytes(), Some("main"))
            .unwrap();
    let stripped = program.get_stripped_program().unwrap();
    let expected = cairo_vm::program_hash::compute_program_hash_chain(&stripped, 0)
        .unwrap()
        .to_bytes_be();
    assert_eq!(plain_program_digest(SMALL_PROGRAM.as_bytes()), Ok(expected));
}

#[test]
fn ill_formed_blobs_are_parse_errors() {
    assert_eq!(compiled_class_digest(b"{}"), Err(ArtifactError::Parse));
    assert_eq!(plain_program_digest(b"{}"), Err(ArtifactError::Parse));
    assert_eq!(plain_program_digest(EMPTY_CLASS.as_bytes()), Err(ArtifactError::Parse));
}

#[test]
fn segment_lengths_must_add_up() {
    let tree = SegmentLengths::Node(vec![
        SegmentLengths::Leaf(2),
        SegmentLengths::Node(vec![SegmentLengths::Leaf(0), SegmentLengths::Leaf(3)]),
        SegmentLengths::Node(vec![]),
        SegmentLengths::Leaf(1),
    ]);
    assert_eq!(take_segments(&tree, 6), Some(0));
    assert_eq!(take_segments(&tree, 10), Some(4));
    assert_eq!(take_segments(&tree, 5), None);
    assert_eq!(take_segments(&tree, 0), None);
    assert!(covers(&tree, 6));
    assert!(!covers(&tree, 7));
    assert!(!covers(&tree, 5));
    assert!(covers(&SegmentLengths::Leaf(0), 0));
    assert!(covers(&SegmentLengths::Node(vec![]), 0));
    assert!(!covers(&SegmentLengths::Leaf(usize::MAX), 3));
    let huge = SegmentLengths::Node(vec![
        SegmentLengths::Leaf(usize::MAX),
        SegmentLengths::Leaf(usize::MAX),
    ]);
    assert!(!covers(&huge, usize::MAX));
}

#[test]
fn operands_are_checked_one_by_one() {
    let mut modulus = vec![0u8; 32];
    modulus[0] = 0x08;
    modulus[7] = 0x11;
    modulus[31] = 0x01;
    assert!(check_field_elements(&vec![]));
    assert!(check_field_elements(&vec![vec![], vec![0], vec![0xff; 31]]));
    assert!(!check_field_elements(&vec![vec![1], modulus.clone()]));
    let good = || EntryPointOperands {
        selector: vec![0x2d],
        builtins: vec![b"range_check".to_vec(), b"pedersen".to_vec()],
    };
    let bad_selector = || EntryPointOperands { selector: vec![0xff; 32], builtins: vec![] };
    let bad_builtin = || EntryPointOperands { selector: vec![1], builtins: vec![vec![b'a'; 33]] };
    assert!(check_entry_points(&vec![good(), good()]));
    assert!(!check_entry_points(&vec![good(), bad_selector()]));
    assert!(!check_entry_points(&vec![bad_builtin(), good()]));
    let class = |bytecode: Vec<Vec<u8>>, external, l1_handler, constructor| ClassOperands {
        bytecode,
        external,
        l1_handler,
        constructor,
    };
    assert!(check_operands(&class(vec![vec![1]], vec![good()], vec![good()], vec![good()])));
    assert!(!check_operands(&class(vec![modulus.clone()], vec![], vec![], vec![])));
    assert!(!check_operands(&class(vec![], vec![bad_selector()], vec![], vec![])));
    assert!(!check_operands(&class(vec![], vec![], vec![bad_builtin()], vec![])));
    assert!(!check_operands(&class(vec![], vec![], vec![], vec![bad_selector()])));
}

#[test]
fn major_component_ends_at_the_first_dot() {
    assert_eq!(read_major_text("2.1.0"), vec!['2']);
    assert_eq!(read_major_text("10"), vec!['1', '0']);
    assert_eq!(read_major_text(".5"), Vec::<char>::new());
    assert_eq!(read_major_text(""), Vec::<char>::new());
    assert_eq!(read_major_text("é.1"), vec!['é']);
    assert_eq!(read_decimal_i32(&['-', '1', '2']), Some(-12));
    assert_eq!(read_decimal_i32(&['+', '7']), Some(7));
    assert_eq!(read_decimal_i32(&['7', '+']), None);
    assert_eq!(read_decimal_i32(&[]), None);
}

#[test]
fn formats_are_recorded_by_their_major_version() {
    assert_eq!(FormatVersion::PlainProgram.tag(), 0);
    assert_eq!(FormatVersion::CompiledClass.tag(), 2);
    assert_eq!(format_for_major(0), Ok(FormatVersion::PlainProgram));
    assert_eq!(format_for_major(2), Ok(FormatVersion::CompiledClass));
    assert_eq!(format_for_major(1), Err(ArtifactError::UnsupportedFormat { major: 1 }));
    assert_eq!(format_for_major(3), Err(ArtifactError::UnsupportedFormat { major: 3 }));
    assert_eq!(
        format_for_major(i32::MIN),
        Err(ArtifactError::UnsupportedFormat { major: i32::MIN })
    );
    assert_eq!(major_for_version(None), Ok(0));
    assert_eq!(major_for_version(Some("2.6.3")), Ok(2));
    assert_eq!(major_for_version(Some("")), Err(ArtifactError::Classification));
    assert_eq!(read_declared_major(br#"{"compiler_version":"7.1"}"#), Ok(7));
    assert_eq!(read_declared_major(br#"{}"#), Ok(0));
    assert_eq!(read_declared_major(br#"{"compiler_version":null}"#), Err(ArtifactError::Classification));
}

#[test]
fn digest_is_dispatched_by_format() {
    assert_eq!(
        compute_digest(EMPTY_CLASS.as_bytes(), FormatVersion::CompiledClass),
        compiled_class_digest(EMPTY_CLASS.as_bytes())
    );
    assert_eq!(
        compute_digest(SMALL_PROGRAM.as_bytes(), FormatVersion::PlainProgram),
        plain_program_digest(SMALL_PROGRAM.as_bytes())
    );
    assert_eq!(
        compute_digest(SMALL_PROGRAM.as_bytes(), FormatVersion::CompiledClass),
        Err(ArtifactError::Parse)
    );
    let without_main = SMALL_PROGRAM.replace("__main__.main", "__main__.start");
    assert_eq!(plain_program_digest(without_main.as_bytes()), Err(ArtifactError::Parse));
    let without_pc = SMALL_PROGRAM.replace("\"pc\":0,", "");
    assert_eq!(plain_program_digest(without_pc.as_bytes()), Err(ArtifactError::Parse));
}

#[test]
fn tag_names_the_format_again() {
    for format in [FormatVersion::PlainProgram, FormatVersion::CompiledClass] {
        assert_eq!(format_for_major(format.tag()), Ok(format));
    }
}

fn outside_chain(blob: &str) -> [u8; 32] {
    let program =
        cairo_vm::types::program::Program::from_bytes(blob.as_bytes(), Some("main")).unwrap();
    let stripped = program.get_stripped_program().unwrap();
    cairo_vm::program_hash::compute_program_hash_chain(&stripped, 0).unwrap().to_bytes_be()
}

#[test]
fn texts_that_cannot_be_padded_are_told_apart() {
    assert!(check_padding(""));
    assert!(check_padding("0x"));
    assert!(check_padding("0x1"));
    assert!(check_padding("abc"));
    assert!(!check_padding("1\u{e9}"));
    assert!(!check_padding("a"));
    assert!(!check_padding("1\u{e9}23"));
    assert!(check_padding("\u{e9}1"));
    assert!(!check_padding("\u{20ac}"));
    assert!(check_padding("\u{20ac}1"));
    assert!(!check_padding("a\u{20ac}1"));
}

#[test]
fn patterns_are_found_where_they_stand() {
    assert!(stands(b"abcdef", 0, b"abc"));
    assert!(stands(b"abcdef", 3, b"def"));
    assert!(stands(b"abcdef", 6, b""));
    assert!(!stands(b"abcdef", 7, b""));
    assert!(!stands(b"abcdef", 4, b"def"));
    assert!(!stands(b"abcdef", 1, b"abc"));
    assert!(!stands(b"ab", 0, b"abc"));
    assert!(!stands(b"abcdef", usize::MAX, b"abc"));
    assert!(stands_after_zero_run(b"x12)", 1, b"12", b')', b')'));
    assert!(stands_after_zero_run(b"x00012)", 1, b"12", b')', b')'));
    assert!(!stands_after_zero_run(b"x00012", 1, b"12", b')', b')'));
    assert!(!stands_after_zero_run(b"x00012]", 1, b"12", b')', b')'));
    assert!(!stands_after_zero_run(b"x00112)", 1, b"12", b')', b')'));
    assert!(stands_after_zero_run(b"0007", 0, b"0", b'6', b'9'));
    assert!(!stands_after_zero_run(b"0005", 0, b"0", b'6', b'9'));
    assert!(!stands_after_zero_run(b"12)", 9, b"12", b')', b')'));
}

#[test]
fn references_that_negate_the_least_offset_are_told_apart() {
    assert!(check_reference_text(""));
    assert!(check_reference_text("[cast(fp + (-3), felt*)]"));
    assert!(check_reference_text("cast(ap + (-2), starkware.cairo.common.uint256.Uint256*)"));
    assert!(check_reference_text("cast(12345678901, felt)"));
    assert!(check_reference_text("cast(2147483648, felt)"));
    assert!(check_reference_text("cast(ap + (-2147483648), felt)"));
    assert!(check_reference_text("cast(ap - (2147483648), felt)"));
    assert!(check_reference_text("cast(ap - (-2147483647), felt)"));
    assert!(check_reference_text("cast(ap - (-21474836480), felt)"));
    assert!(check_reference_text("cast(ap - (-2147483648, felt)"));
    assert!(!check_reference_text("cast(ap - (-2147483648), felt)"));
    assert!(!check_reference_text("cast(ap - (-002147483648), felt)"));
    assert!(!check_reference_text("[cast([ap - (-2147483648)] + 1, felt)]"));
    assert!(!check_reference_text(" - (- - (-02147483648)"));
}

#[test]
fn numbers_that_pass_the_limit_in_a_sum_are_told_apart() {
    let limit = "115792089237316195423570985008687907853269984665640564039457584007913129639936";
    assert!(check_number_text("0"));
    assert!(check_number_text("-1809251394333065606848661391547535052811553607665798349986546028067936010240"));
    assert!(check_number_text("115792089237316195423570985008687907853269984665640564039457584007913129639935"));
    assert!(!check_number_text(limit));
    assert!(!check_number_text("115792089237316195423570985008687907853269984665640564039457584007913129639939"));
    assert!(check_number_text("115792089237316195423570985008687907853269984665640564039457584007913129639940"));
    assert!(check_number_text("215792089237316195423570985008687907853269984665640564039457584007913129639936"));
    assert!(!check_number_text(&format!("-{}", limit)));
    assert!(!check_number_text(&format!("000{}", limit)));
    assert!(!check_number_text(&format!("-0{}123", limit)));
    assert!(!check_number_text(&format!("{}e5", limit)));
    assert!(check_number_text(&format!("--{}", limit)));
    assert!(check_number_text(&format!("1{}", limit)));
    assert!(check_number_text(&limit[..77]));
    assert!(check_number_text("1e999"));
}

#[test]
fn data_that_cannot_be_padded_is_no_program() {
    assert_eq!(plain_program_digest(br#"{"data":["a"]}"#), Err(ArtifactError::Parse));
    assert_eq!(plain_program_digest("{\"data\":[\"1\u{e9}23\"]}".as_bytes()), Err(ArtifactError::Parse));
    assert_eq!(plain_program_digest(br#"["p",[],["a"]]"#), Err(ArtifactError::Parse));
    assert_eq!(plain_program_digest(br#"{"data":["0x1",5,"a"]}"#), Err(ArtifactError::Parse));
    let odd = SMALL_PROGRAM.replace("\"0x208b7fff7fff7ffe\"", "\"0x208b7fff7fff7ffe\",\"0x1\",\"abc\"");
    assert_eq!(plain_program_digest(odd.as_bytes()), Ok(outside_chain(&odd)));
    let single = SMALL_PROGRAM.replace("\"0x208b7fff7fff7ffe\"", "\"0x208b7fff7fff7ffe\",\"7\"");
    assert_eq!(plain_program_digest(single.as_bytes()), Err(ArtifactError::Parse));
    let document: serde_json::Value = serde_json::from_str(&single).unwrap();
    assert!(!check_document(&document));
    assert_eq!(document_digest(document), Err(ArtifactError::Parse));
}

#[test]
fn identifiers_whose_numbers_pass_the_limit_are_no_program() {
    let with_value = |value: &str| {
        SMALL_PROGRAM.replace(
            "\"identifiers\":{",
            &format!("\"identifiers\":{{\"__main__.K\":{{\"type\":\"const\",\"value\":{}}},", value),
        )
    };
    let small = with_value("-1809251394333065606848661391547535052811553607665798349986546028067936010240");
    assert_eq!(plain_program_digest(small.as_bytes()), Ok(outside_chain(&small)));
    let long = with_value("115792089237316195423570985008687907853269984665640564039457584007913129639940");
    assert_eq!(plain_program_digest(long.as_bytes()), Ok(outside_chain(&long)));
    let longer = with_value("1234567890123456789012345678901234567890123456789012345678901234567890123456789012345678901234567890");
    assert_eq!(plain_program_digest(longer.as_bytes()), Ok(outside_chain(&longer)));
    let edge = with_value("115792089237316195423570985008687907853269984665640564039457584007913129639936");
    assert_eq!(plain_program_digest(edge.as_bytes()), Err(ArtifactError::Parse));
    let listed = SMALL_PROGRAM.replace(
        "\"identifiers\":{",
        "\"identifiers\":{\"__main__.K\":[null,\"const\",115792089237316195423570985008687907853269984665640564039457584007913129639936],",
    );
    assert_eq!(plain_program_digest(listed.as_bytes()), Err(ArtifactError::Parse));
}

#[test]
fn identifier_whose_value_is_an_object_is_no_program() {
    let mut number = serde_json::Map::new();
    number.insert(
        "$serde_json::private::Number".to_string(),
        serde_json::Value::String(
            "115792089237316195423570985008687907853269984665640564039457584007913129639936"
                .to_string(),
        ),
    );
    let mut identifier = serde_json::Map::new();
    identifier.insert("type".to_string(), serde_json::Value::String("const".to_string()));
    identifier.insert("value".to_string(), serde_json::Value::Object(number));
    let identifier = serde_json::Value::Object(identifier);
    assert!(!check_identifier(&identifier));
    let mut document: serde_json::Value = serde_json::from_str(SMALL_PROGRAM).unwrap();
    assert!(check_document(&document));
    document
        .get_mut("identifiers")
        .unwrap()
        .as_object_mut()
        .unwrap()
        .insert("__main__.K".to_string(), identifier);
    assert!(!check_document(&document));
    assert_eq!(document_digest(document), Err(ArtifactError::Parse));
    let empty = serde_json::Value::Object(serde_json::Map::new());
    let mut holder = serde_json::Map::new();
    holder.insert("value".to_string(), empty);
    assert!(!check_identifier(&serde_json::Value::Object(holder)));
    let plain: serde_json::Value = serde_json::from_str(r#"{"value":5}"#).unwrap();
    assert!(check_identifier(&plain));
    let text: serde_json::Value = serde_json::from_str(r#"{"value":"5"}"#).unwrap();
    assert!(check_identifier(&text));
}

#[test]
fn references_that_negate_the_least_offset_are_no_program() {
    let with_reference = |value: &str| {
        SMALL_PROGRAM.replace(
            "\"references\":[]",
            &format!(
                "\"references\":[{{\"ap_tracking_data\":{{\"group\":0,\"offset\":0}},\"pc\":0,\"value\":\"{}\"}}]",
                value
            ),
        )
    };
    let usual = with_reference("[cast(fp + (-3), felt*)]");
    assert_eq!(plain_program_digest(usual.as_bytes()), Ok(outside_chain(&usual)));
    let long_constant = with_reference("cast(12345678901, felt)");
    assert_eq!(plain_program_digest(long_constant.as_bytes()), Ok(outside_chain(&long_constant)));
    let least_digits = with_reference("cast(ap + 2147483648, felt)");
    assert_eq!(plain_program_digest(least_digits.as_bytes()), Ok(outside_chain(&least_digits)));
    let added = with_reference("cast(ap + (-2147483648), felt)");
    assert_eq!(plain_program_digest(added.as_bytes()), Ok(outside_chain(&added)));
    let extreme = with_reference("cast(ap - (-2147483648), felt)");
    assert_eq!(plain_program_digest(extreme.as_bytes()), Err(ArtifactError::Parse));
    let listed = SMALL_PROGRAM.replace(
        "\"references\":[]",
        "\"references\":[[{\"group\":0,\"offset\":0},0,\"cast(ap - (-002147483648), felt)\"]]",
    );
    assert_eq!(plain_program_digest(listed.as_bytes()), Err(ArtifactError::Parse));
}

#[test]
fn last_of_two_members_of_one_name_is_the_one_loaded() {
    let twice = SMALL_PROGRAM.replace("\"data\":[", "\"data\":[\"a\"],\"data\":[");
    assert_eq!(plain_program_digest(twice.as_bytes()), Ok(outside_chain(SMALL_PROGRAM)));
}
