use ripgrep_json::{decode_line, parse_json, ArbitraryData, DecodeError, Duration, Stats, Submatch, Type};

#[test]
fn arbitrarydata() {
    let json = r#"{"text":"/home/andrew/sherlock"}"#;
    let v = parse_json(json).unwrap();
    assert_eq!(
        ArbitraryData::Text { text: "/home/andrew/sherlock".to_owned() },
        ArbitraryData::decode(&v).unwrap()
    )
}

#[test]
fn begin_deserialize() {
    let json = r#"{"type":"begin","data":{"path":{"text":"/home/andrew/sherlock"}}}"#;
    assert_eq!(
        Type::Begin {
            path: ArbitraryData::Text { text: "/home/andrew/sherlock".to_owned() }
        },
        decode_line(json).unwrap()
    );
}

#[test]
fn end_deserialize() {
    let json = r#"{"type":"end","data":{"path":{"text":"/home/andrew/sherlock"},"binary_offset":null,"stats":{"elapsed":{"secs":0,"nanos":36296,"human":"0.0000s"},"searches":1,"searches_with_match":1,"bytes_searched":367,"bytes_printed":1151,"matched_lines":2,"matches":2}}}"#;
    assert_eq!(
        Type::End {
            path: ArbitraryData::Text { text: "/home/andrew/sherlock".to_owned() },
            binary_offset: None,
            stats: Stats {
                elapsed: Duration { secs: 0, nanos: 36296, human: "0.0000s".to_owned() },
                searches: 1,
                searches_with_match: 1,
                bytes_searched: 367,
                bytes_printed: 1151,
                matched_lines: 2,
                matches: 2
            }
        },
        decode_line(json).unwrap()
    );
}

#[test]
fn match_deserialize() {
    let json = r#"{"type":"match","data":{"path":{"text":"/home/andrew/sherlock"},"lines":{"text":"but Doctor Watson has to have it taken out for him and dusted,\n"},"line_number":5,"absolute_offset":258,"submatches":[{"match":{"text":"Watson"},"start":11,"end":17}]}}"#;
    assert_eq!(
        Type::Match {
            path: ArbitraryData::Text { text: "/home/andrew/sherlock".to_owned() },
            lines: ArbitraryData::Text {
                text: "but Doctor Watson has to have it taken out for him and dusted,\n"
                    .to_owned()
            },
            line_number: Some(5),
            absolute_offset: 258,
            submatches: vec![Submatch {
                matched: ArbitraryData::Text { text: "Watson".to_owned() },
                start: 11,
                end: 17
            }],
        },
        decode_line(json).unwrap()
    )
}

#[test]
fn content_deserialize() {
    let json = r#"{"type":"context","data":{"path":{"text":"/home/andrew/sherlock"},"lines":{"text":"can extract a clew from a wisp of straw or a flake of cigar ash;\n"},"line_number":4,"absolute_offset":193,"submatches":[]}}"#;
    assert_eq!(
        Type::Context {
            path: ArbitraryData::Text { text: "/home/andrew/sherlock".to_owned() },
            lines: ArbitraryData::Text {
                text: "can extract a clew from a wisp of straw or a flake of cigar ash;\n"
                    .to_owned()
            },
            line_number: Some(4),
            absolute_offset: 193,
            submatches: vec![],
        },
        decode_line(json).unwrap()
    )
}

#[test]
fn unknown_tag_is_schema_mismatch() {
    let json = r#"{"type":"bogus","data":{"path":{"text":"x"}}}"#;
    match decode_line(json) {
        Err(DecodeError::SchemaMismatch { field, found }) => {
            assert_eq!(field, "type");
            assert_eq!(found, "bogus");
        }
        other => panic!("expected a schema mismatch, got {:?}", other),
    }
}

#[test]
fn missing_type_is_schema_mismatch() {
    let json = r#"{"data":{"path":{"text":"x"}}}"#;
    assert!(matches!(decode_line(json), Err(DecodeError::SchemaMismatch { .. })));
}

#[test]
fn malformed_json_is_syntax_error() {
    assert!(matches!(decode_line("{\"type\":"), Err(DecodeError::Syntax { .. })));
    assert!(matches!(decode_line("not json"), Err(DecodeError::Syntax { offset: 0 })));
}

#[test]
fn binary_offset_absent_and_null_agree() {
    let with_null = r#"{"type":"end","data":{"path":{"text":"f"},"binary_offset":null,"stats":{"elapsed":{"secs":0,"nanos":1,"human":"0.0000s"},"searches":1,"searches_with_match":0,"bytes_searched":10,"bytes_printed":0,"matched_lines":0,"matches":0}}}"#;
    let absent = r#"{"type":"end","data":{"path":{"text":"f"},"stats":{"elapsed":{"secs":0,"nanos":1,"human":"0.0000s"},"searches":1,"searches_with_match":0,"bytes_searched":10,"bytes_printed":0,"matched_lines":0,"matches":0}}}"#;
    let a = decode_line(with_null).unwrap();
    let b = decode_line(absent).unwrap();
    assert_eq!(a, b);
    match a {
        Type::End { binary_offset, .. } => assert_eq!(binary_offset, None),
        other => panic!("expected an end event, got {:?}", other),
    }
}

#[test]
fn binary_offset_present() {
    let json = r#"{"type":"end","data":{"path":{"text":"f"},"binary_offset":-7,"stats":{"elapsed":{"secs":0,"nanos":1,"human":"0.0000s"},"searches":1,"searches_with_match":0,"bytes_searched":10,"bytes_printed":0,"matched_lines":0,"matches":0}}}"#;
    match decode_line(json).unwrap() {
        Type::End { binary_offset, .. } => assert_eq!(binary_offset, Some(-7)),
        other => panic!("expected an end event, got {:?}", other),
    }
}

#[test]
fn missing_submatches_is_schema_mismatch() {
    let json = r#"{"type":"match","data":{"path":{"text":"f"},"lines":{"text":"l"},"line_number":1,"absolute_offset":0}}"#;
    assert!(matches!(decode_line(json), Err(DecodeError::SchemaMismatch { .. })));
}

#[test]
fn wrong_member_kind_is_schema_mismatch() {
    let json = r#"{"type":"begin","data":{"path":"bare string"}}"#;
    assert!(matches!(decode_line(json), Err(DecodeError::SchemaMismatch { .. })));
    let json2 = r#"{"type":"begin","data":{"path":{"text":"a","bytes":"b"}}}"#;
    assert!(matches!(decode_line(json2), Err(DecodeError::SchemaMismatch { .. })));
}

#[test]
fn unsigned_member_rejects_negative() {
    let json = r#"{"type":"match","data":{"path":{"text":"f"},"lines":{"text":"l"},"line_number":-3,"absolute_offset":0,"submatches":[]}}"#;
    assert!(matches!(decode_line(json), Err(DecodeError::SchemaMismatch { .. })));
}

#[test]
fn unsigned_member_rejects_overflow() {
    // One above the largest value the field can hold.
    let json = r#"{"type":"match","data":{"path":{"text":"f"},"lines":{"text":"l"},"line_number":18446744073709551616,"absolute_offset":0,"submatches":[]}}"#;
    assert!(matches!(decode_line(json), Err(DecodeError::SchemaMismatch { .. })));
    let ok = r#"{"type":"match","data":{"path":{"text":"f"},"lines":{"text":"l"},"line_number":18446744073709551615,"absolute_offset":0,"submatches":[]}}"#;
    match decode_line(ok).unwrap() {
        Type::Match { line_number, .. } => assert_eq!(line_number, Some(u64::MAX)),
        other => panic!("expected a match event, got {:?}", other),
    }
}

#[test]
fn string_escapes_decode() {
    let json = r#"{"type":"begin","data":{"path":{"text":"aA\n\t\\\"é"}}}"#;
    assert_eq!(
        Type::Begin { path: ArbitraryData::Text { text: "aA\n\t\\\"\u{e9}".to_owned() } },
        decode_line(json).unwrap()
    );
}

#[test]
fn surrogate_pair_escape_decodes() {
    let json = r#"{"type":"begin","data":{"path":{"text":"\uD83D\uDE00"}}}"#;
    assert_eq!(
        Type::Begin { path: ArbitraryData::Text { text: "\u{1f600}".to_owned() } },
        decode_line(json).unwrap()
    );
}
