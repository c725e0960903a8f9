//! The ambiguous string payload of the wire format: either UTF-8 text or
//! base64-encoded bytes, told apart by which single member name the
//! carrying object uses (`text` or `bytes`), never by content sniffing.

use vstd::prelude::*;

use crate::error::DecodeError;
use crate::ext::{b64_decode, base64_decoded, chars_to_string, lossy_decoded, utf8_lossy};
use crate::json::{obj_model, str_chars, chars_eq_str, Json, JsonModel};

verus! {

/// A string payload that may be raw UTF-8 text or base64-encoded bytes.
/// The producer of the stream, not this decoder, chooses the form: text
/// where the underlying bytes are valid UTF-8, base64 where they are not.
#[derive(Debug, PartialEq, Eq)]
pub enum ArbitraryData {
    Text { text: String },
    Base64 { bytes: String },
}

/// The mathematical shape of an `ArbitraryData` value.
pub enum DataModel {
    Text(Seq<char>),
    Base64(Seq<char>),
}

impl View for ArbitraryData {
    type V = DataModel;

    open spec fn view(&self) -> DataModel {
        match self {
            ArbitraryData::Text { text } => DataModel::Text(text@),
            ArbitraryData::Base64 { bytes } => DataModel::Base64(bytes@),
        }
    }
}

/// How a JSON value decodes as an `ArbitraryData`: an object with exactly
/// one member, named `text` or `bytes`, whose value is a string. Any
/// other shape is a mismatch.
pub open spec fn data_of_jm(j: JsonModel) -> Option<DataModel> {
    match j {
        JsonModel::Obj(fs) => if fs.len() == 1 {
            match fs[0].1 {
                JsonModel::Str(s) => if fs[0].0 == "text"@ {
                    Some(DataModel::Text(s))
                } else if fs[0].0 == "bytes"@ {
                    Some(DataModel::Base64(s))
                } else {
                    None
                },
                _ => None,
            }
        } else {
            None
        },
        _ => None,
    }
}

/// How an `ArbitraryData` encodes as a JSON value: `{"text": s}` for the
/// text form, `{"bytes": s}` for the base64 form, the stored string
/// emitted exactly as it is.
pub open spec fn data_to_jm(d: DataModel) -> JsonModel {
    match d {
        DataModel::Text(s) => JsonModel::Obj(seq![("text"@, JsonModel::Str(s))]),
        DataModel::Base64(s) => JsonModel::Obj(seq![("bytes"@, JsonModel::Str(s))]),
    }
}

/// Decoding inverts encoding on every value.
pub proof fn lemma_data_round_trip(d: DataModel)
    ensures
        data_of_jm(data_to_jm(d)) == Some(d),
{
    reveal_strlit("text");
    reveal_strlit("bytes");
    assert("text"@.len() == 4);
    assert("bytes"@.len() == 5);
    match d {
        DataModel::Text(s) => {
            let fs = seq![("text"@, JsonModel::Str(s))];
            assert(fs.len() == 1);
            assert(fs[0] == ("text"@, JsonModel::Str(s)));
        },
        DataModel::Base64(s) => {
            let fs = seq![("bytes"@, JsonModel::Str(s))];
            assert(fs.len() == 1);
            assert(fs[0] == ("bytes"@, JsonModel::Str(s)));
        },
    }
}

impl ArbitraryData {
    /// Reads an `ArbitraryData` out of one JSON value, exactly as
    /// `data_of_jm` describes.
    pub fn decode(j: &Json) -> (r: Result<ArbitraryData, DecodeError>)
        ensures
            match r {
                Ok(d) => data_of_jm(j@) == Some(d@),
                Err(e) => data_of_jm(j@) is None && e is SchemaMismatch,
            },
    {
        match j {
            Json::Obj(fs) => {
                if fs.len() == 1 {
                    proof {
                        assert(obj_model(fs@)[0] == (fs@[0].0@, fs@[0].1@));
                    }
                    let is_text = chars_eq_str(&fs[0].0, "text");
                    let is_bytes = chars_eq_str(&fs[0].0, "bytes");
                    match &fs[0].1 {
                        Json::Str(s) => {
                            if is_text {
                                Ok(ArbitraryData::Text { text: chars_to_string(s) })
                            } else if is_bytes {
                                Ok(ArbitraryData::Base64 { bytes: chars_to_string(s) })
                            } else {
                                Err(data_mismatch())
                            }
                        },
                        _ => Err(data_mismatch()),
                    }
                } else {
                    Err(data_mismatch())
                }
            },
            _ => Err(data_mismatch()),
        }
    }

    /// Writes this value back to its JSON form, exactly as `data_to_jm`
    /// describes.
    pub fn encode(&self) -> (r: Json)
        ensures
            r@ == data_to_jm(self@),
    {
        match self {
            ArbitraryData::Text { text } => {
                let mut fs: Vec<(Vec<char>, Json)> = Vec::new();
                fs.push((str_chars("text"), Json::Str(str_chars(text.as_str()))));
                proof {
                    assert(obj_model(fs@) =~= seq![("text"@, JsonModel::Str(text@))]);
                }
                Json::Obj(fs)
            },
            ArbitraryData::Base64 { bytes } => {
                let mut fs: Vec<(Vec<char>, Json)> = Vec::new();
                fs.push((str_chars("bytes"), Json::Str(str_chars(bytes.as_str()))));
                proof {
                    assert(obj_model(fs@) =~= seq![("bytes"@, JsonModel::Str(bytes@))]);
                }
                Json::Obj(fs)
            },
        }
    }

    /// The payload as text, for display. The text form comes back
    /// unchanged. The base64 form is decoded, and the bytes are converted
    /// with lossy UTF-8 conversion, so invalid byte sequences never fail;
    /// only a payload that is not well-formed base64 does.
    pub fn lossy_utf8(&self) -> (r: Result<String, DecodeError>)
        ensures
            match self@ {
                DataModel::Text(t) => r matches Ok(s) && s@ == t,
                DataModel::Base64(b) => match base64_decoded(b) {
                    Some(bs) => r matches Ok(s) && s@ == lossy_decoded(bs)
                        && (vstd::utf8::valid_utf8(bs) ==> s@ == vstd::utf8::decode_utf8(bs)),
                    None => r == Err::<String, DecodeError>(DecodeError::InvalidBase64),
                },
            },
    {
        match self {
            ArbitraryData::Text { text } => Ok(text.clone()),
            ArbitraryData::Base64 { bytes } => match b64_decode(bytes.as_str()) {
                Some(v) => Ok(utf8_lossy(&v)),
                None => Err(DecodeError::InvalidBase64),
            },
        }
    }
}

/// The error for a value that does not fit either payload form.
fn data_mismatch() -> (r: DecodeError)
    ensures
        r is SchemaMismatch,
{
    DecodeError::SchemaMismatch {
        field: String::from_str("text|bytes"),
        found: String::from_str("no single text or bytes member"),
    }
}

} // verus!
