use ripgrep_json::{ArbitraryData, DecodeError};

#[test]
fn lossy_text_is_unchanged() {
    let d = ArbitraryData::Text { text: "just text, любой".to_owned() };
    assert_eq!("just text, любой", d.lossy_utf8().unwrap());
}

#[test]
fn lossy_base64_valid_utf8_is_exact() {
    // "hello" in standard base64.
    let d = ArbitraryData::Base64 { bytes: "aGVsbG8=".to_owned() };
    assert_eq!("hello", d.lossy_utf8().unwrap());
}

#[test]
fn lossy_base64_invalid_utf8_is_replaced() {
    // One 0xff byte: not valid UTF-8 anywhere.
    let d = ArbitraryData::Base64 { bytes: "/w==".to_owned() };
    assert_eq!("\u{fffd}", d.lossy_utf8().unwrap());
    // "a" then 0xff then "b": the bad byte alone is replaced.
    let d2 = ArbitraryData::Base64 { bytes: "Yf9i".to_owned() };
    assert_eq!("a\u{fffd}b", d2.lossy_utf8().unwrap());
}

#[test]
fn lossy_malformed_base64_fails() {
    let d = ArbitraryData::Base64 { bytes: "not base64!".to_owned() };
    assert_eq!(Err(DecodeError::InvalidBase64), d.lossy_utf8());
}

#[test]
fn data_encode_decode_round_trip() {
    let t = ArbitraryData::Text { text: "x".to_owned() };
    assert_eq!(t, ArbitraryData::decode(&t.encode()).unwrap());
    let b = ArbitraryData::Base64 { bytes: "AAAA".to_owned() };
    assert_eq!(b, ArbitraryData::decode(&b.encode()).unwrap());
}
