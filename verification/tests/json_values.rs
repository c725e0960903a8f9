use ripgrep_json::{decode_line, json_to_string, parse_json, ArbitraryData, DecodeError, Json, Type};

#[test]
fn whitespace_around_and_inside_is_tolerated() {
    let json = " {\t\"type\" : \"begin\" ,\n \"data\" : { \"path\" : { \"text\" : \"x\" } } } \r\n";
    assert_eq!(
        Type::Begin { path: ArbitraryData::Text { text: "x".to_owned() } },
        decode_line(json).unwrap()
    );
}

#[test]
fn member_order_does_not_matter() {
    let reordered = r#"{"data":{"path":{"text":"x"}},"type":"begin"}"#;
    assert_eq!(
        Type::Begin { path: ArbitraryData::Text { text: "x".to_owned() } },
        decode_line(reordered).unwrap()
    );
}

#[test]
fn first_occurrence_of_a_member_wins() {
    let json = r#"{"type":"begin","data":{"path":{"text":"first"}},"data":{"path":{"text":"second"}}}"#;
    assert_eq!(
        Type::Begin { path: ArbitraryData::Text { text: "first".to_owned() } },
        decode_line(json).unwrap()
    );
}

#[test]
fn nesting_beyond_the_allowance_is_syntax() {
    let mut deep = String::new();
    for _ in 0..200 {
        deep.push('[');
    }
    assert!(matches!(parse_json(&deep), Err(DecodeError::Syntax { .. })));
}

#[test]
fn trailing_text_after_the_value_is_syntax() {
    assert!(matches!(parse_json("{} {}"), Err(DecodeError::Syntax { .. })));
    assert!(matches!(parse_json("nullx"), Err(DecodeError::Syntax { .. })));
}

#[test]
fn plain_values_parse_and_print_back() {
    let v = parse_json("[1,-2,null,true,false,\"a b\",{},[]]").unwrap();
    assert_eq!("[1,-2,null,true,false,\"a b\",{},[]]", json_to_string(&v));
}

#[test]
fn integer_magnitude_has_a_hard_edge() {
    // The largest magnitudes the value type can hold stay integers; one
    // beyond keeps its text, and no field accepts it.
    assert!(matches!(
        parse_json("170141183460469231731687303715884105727"),
        Ok(Json::Int(_))
    ));
    assert!(matches!(
        parse_json("-170141183460469231731687303715884105728"),
        Ok(Json::Int(_))
    ));
    assert!(matches!(
        parse_json("170141183460469231731687303715884105728"),
        Ok(Json::NumText(_))
    ));
    assert!(matches!(
        parse_json("-170141183460469231731687303715884105729"),
        Ok(Json::NumText(_))
    ));
    let line = r#"{"type":"match","data":{"path":{"text":"f"},"lines":{"text":"l"},"line_number":170141183460469231731687303715884105728,"absolute_offset":0,"submatches":[]}}"#;
    assert!(matches!(decode_line(line), Err(DecodeError::SchemaMismatch { .. })));
}

#[test]
fn fractions_and_exponents_are_the_wrong_kind() {
    // A number with a fraction or exponent is well-formed JSON, so it
    // parses; but no field takes it, so decoding is a schema mismatch,
    // never a truncated value.
    assert!(matches!(parse_json("1.5"), Ok(Json::NumText(_))));
    assert!(matches!(parse_json("1e3"), Ok(Json::NumText(_))));
    assert_eq!("-1.5e+10", json_to_string(&parse_json("-1.5e+10").unwrap()));
    let line = r#"{"type":"match","data":{"path":{"text":"f"},"lines":{"text":"l"},"line_number":1.5,"absolute_offset":0,"submatches":[]}}"#;
    assert!(matches!(decode_line(line), Err(DecodeError::SchemaMismatch { .. })));
}

#[test]
fn leading_zeros_are_not_well_formed() {
    assert!(matches!(parse_json("01"), Err(DecodeError::Syntax { .. })));
    assert!(matches!(parse_json("-01"), Err(DecodeError::Syntax { .. })));
    assert!(matches!(parse_json("[0]"), Ok(Json::Arr(_))));
    assert!(matches!(parse_json("0.5"), Ok(Json::NumText(_))));
}
