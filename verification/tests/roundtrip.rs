use ripgrep_json::event::{decode_duration, decode_stats, decode_submatch, encode_duration, encode_stats, encode_submatch};
use ripgrep_json::{decode_line, encode_line, from_json, to_json, ArbitraryData, Duration, Stats, Submatch, Type};

fn text(s: &str) -> ArbitraryData {
    ArbitraryData::Text { text: s.to_owned() }
}

fn sample_stats() -> Stats {
    Stats {
        elapsed: Duration { secs: 3, nanos: 999_999_999, human: "3.9s".to_owned() },
        searches: -2,
        searches_with_match: 1,
        bytes_searched: u64::MAX,
        bytes_printed: 0,
        matched_lines: 12,
        matches: 13,
    }
}

#[test]
fn round_trip_begin() {
    let e = Type::Begin { path: ArbitraryData::Base64 { bytes: "aGVsbG8=".to_owned() } };
    assert_eq!(e, decode_line(&encode_line(&e)).unwrap());
}

#[test]
fn round_trip_end() {
    let with = Type::End {
        path: text("/tmp/хлеб"),
        binary_offset: Some(i64::MIN),
        stats: sample_stats(),
    };
    assert_eq!(with, decode_line(&encode_line(&with)).unwrap());
    let without = Type::End { path: text("a\"b\\c\nd"), binary_offset: None, stats: sample_stats() };
    assert_eq!(without, decode_line(&encode_line(&without)).unwrap());
}

#[test]
fn round_trip_match() {
    let e = Type::Match {
        path: text("src/lib.rs"),
        lines: text("let x = 1;\n"),
        line_number: Some(u64::MAX),
        absolute_offset: -1,
        submatches: vec![
            Submatch { matched: text("x"), start: 4, end: 5 },
            Submatch { matched: ArbitraryData::Base64 { bytes: "/w==".to_owned() }, start: 0, end: 1 },
        ],
    };
    assert_eq!(e, decode_line(&encode_line(&e)).unwrap());
}

#[test]
fn round_trip_context() {
    let e = Type::Context {
        path: text("p"),
        lines: text("\u{1}\u{1f}control"),
        line_number: None,
        absolute_offset: i64::MAX,
        submatches: vec![],
    };
    assert_eq!(e, decode_line(&encode_line(&e)).unwrap());
}

#[test]
fn round_trip_duration_stats_submatch_values() {
    let d = Duration { secs: u64::MAX, nanos: 1, human: "forever".to_owned() };
    assert_eq!(d, decode_duration(&encode_duration(&d)).unwrap());
    let s = sample_stats();
    assert_eq!(s, decode_stats(&encode_stats(&s)).unwrap());
    let m = Submatch { matched: text("Watson"), start: 11, end: 17 };
    assert_eq!(m, decode_submatch(&encode_submatch(&m)).unwrap());
}

#[test]
fn round_trip_json_value() {
    let e = Type::Begin { path: text("x") };
    let v = to_json(&e);
    assert_eq!(e, from_json(&v).unwrap());
}

#[test]
fn encode_reproduces_wire_line() {
    let begin = r#"{"type":"begin","data":{"path":{"text":"/home/andrew/sherlock"}}}"#;
    assert_eq!(begin, encode_line(&decode_line(begin).unwrap()));
    let m = r#"{"type":"match","data":{"path":{"text":"/home/andrew/sherlock"},"lines":{"text":"but Doctor Watson has to have it taken out for him and dusted,\n"},"line_number":5,"absolute_offset":258,"submatches":[{"match":{"text":"Watson"},"start":11,"end":17}]}}"#;
    assert_eq!(m, encode_line(&decode_line(m).unwrap()));
}

#[test]
fn encode_omits_absent_optionals() {
    let e = Type::End { path: text("f"), binary_offset: None, stats: sample_stats() };
    let line = encode_line(&e);
    assert!(!line.contains("binary_offset"));
    let c = Type::Context {
        path: text("p"),
        lines: text("l"),
        line_number: None,
        absolute_offset: 0,
        submatches: vec![],
    };
    assert!(!encode_line(&c).contains("line_number"));
}

#[test]
fn encode_escapes_and_numbers() {
    let e = Type::Match {
        path: text("a\"b"),
        lines: text("x\ny\u{8}\u{c}\r\t\u{1f}"),
        line_number: None,
        absolute_offset: -258,
        submatches: vec![],
    };
    let line = encode_line(&e);
    assert_eq!(
        r#"{"type":"match","data":{"path":{"text":"a\"b"},"lines":{"text":"x\ny\b\f\r\t\u001f"},"absolute_offset":-258,"submatches":[]}}"#,
        line
    );
}
