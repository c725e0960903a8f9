//! Reading a line of text as a JSON value. The grammar is stated first,
//! as specification functions (`json_of_text` and the `sp_` family), and
//! the reader below is proved to return exactly what the grammar says:
//! the value the text denotes, or a `Syntax` error when it denotes none.
//!
//! Numbers with a fraction or exponent, and integers beyond the value
//! range, are well-formed JSON: they parse to `Json::NumText`, and the
//! schema layer rejects them as the wrong kind. Nesting is limited as
//! common JSON readers limit it. A reported offset is the character
//! position at which reading stopped.

use vstd::prelude::*;

use crate::error::DecodeError;
use crate::ext::char_from_u32;
use crate::json::{Json, JsonModel};

verus! {

/// Nesting allowance for one line.
pub const MAX_DEPTH: u32 = 128;

/// The magnitude bound of the integers a value can hold: one above the
/// largest positive value, the exact magnitude of the smallest negative.
pub const INT_LIMIT: u128 = 170141183460469231731687303715884105728u128;

// ---------------------------------------------------------------------
// The grammar, in specification.
// ---------------------------------------------------------------------

pub open spec fn is_ws(c: char) -> bool {
    c == ' ' || c == '\t' || c == '\n' || c == '\r'
}

/// The first position at or after `i` holding no whitespace.
pub open spec fn sp_skip_ws(s: Seq<char>, i: int) -> int
    decreases s.len() - i,
{
    if i < 0 || i >= s.len() || !is_ws(s[i]) {
        i
    } else {
        sp_skip_ws(s, i + 1)
    }
}

pub open spec fn sp_digit(c: char) -> Option<int> {
    if c == '0' {
        Some(0)
    } else if c == '1' {
        Some(1)
    } else if c == '2' {
        Some(2)
    } else if c == '3' {
        Some(3)
    } else if c == '4' {
        Some(4)
    } else if c == '5' {
        Some(5)
    } else if c == '6' {
        Some(6)
    } else if c == '7' {
        Some(7)
    } else if c == '8' {
        Some(8)
    } else if c == '9' {
        Some(9)
    } else {
        None
    }
}

pub open spec fn is_digit(c: char) -> bool {
    sp_digit(c) is Some
}

pub open spec fn sp_hex(c: char) -> Option<int> {
    if is_digit(c) {
        sp_digit(c)
    } else if c == 'a' || c == 'A' {
        Some(10)
    } else if c == 'b' || c == 'B' {
        Some(11)
    } else if c == 'c' || c == 'C' {
        Some(12)
    } else if c == 'd' || c == 'D' {
        Some(13)
    } else if c == 'e' || c == 'E' {
        Some(14)
    } else if c == 'f' || c == 'F' {
        Some(15)
    } else {
        None
    }
}

/// Four hexadecimal digits at `i`, as one value.
pub open spec fn sp_hex4(s: Seq<char>, i: int) -> Option<int> {
    if i < 0 || i + 4 > s.len() {
        None
    } else {
        match (sp_hex(s[i]), sp_hex(s[i + 1]), sp_hex(s[i + 2]), sp_hex(s[i + 3])) {
            (Some(a), Some(b), Some(c), Some(d)) => Some(a * 4096 + b * 256 + c * 16 + d),
            _ => None,
        }
    }
}

/// The character with a given Unicode scalar value.
pub open spec fn char_of_scalar(v: int) -> char {
    (v as u32) as char
}

/// The short escapes: what stands after a backslash, and the character
/// it denotes.
pub open spec fn sp_escape(e: char) -> Option<char> {
    if e == '"' {
        Some('"')
    } else if e == '\\' {
        Some('\\')
    } else if e == '/' {
        Some('/')
    } else if e == 'b' {
        Some('\u{8}')
    } else if e == 'f' {
        Some('\u{c}')
    } else if e == 'n' {
        Some('\n')
    } else if e == 'r' {
        Some('\r')
    } else if e == 't' {
        Some('\t')
    } else {
        None
    }
}

/// The body of a quoted string from position `k` (just after the opening
/// quote): the characters it denotes and the position after the closing
/// quote. Unescaped control characters, bad escapes, lone surrogates and
/// an unterminated string denote nothing.
pub open spec fn sp_str(s: Seq<char>, k: int) -> Option<(Seq<char>, int)>
    decreases s.len() - k,
{
    if k < 0 || k >= s.len() {
        None
    } else {
        let c = s[k];
        if c == '"' {
            Some((Seq::empty(), k + 1))
        } else if c == '\\' {
            if k + 2 > s.len() {
                None
            } else {
                let e = s[k + 1];
                if e == 'u' {
                    if k + 6 > s.len() {
                        None
                    } else {
                        match sp_hex4(s, k + 2) {
                            None => None,
                            Some(h) => if 0xD800 <= h < 0xDC00 {
                                if k + 12 > s.len() {
                                    None
                                } else if !(s[k + 6] == '\\' && s[k + 7] == 'u') {
                                    None
                                } else {
                                    match sp_hex4(s, k + 8) {
                                        None => None,
                                        Some(l) => if !(0xDC00 <= l < 0xE000) {
                                            None
                                        } else {
                                            let code = 0x10000 + (h - 0xD800) * 0x400 + (l - 0xDC00);
                                            match sp_str(s, k + 12) {
                                                Some((rest, j)) => Some(
                                                    (seq![char_of_scalar(code)] + rest, j),
                                                ),
                                                None => None,
                                            }
                                        },
                                    }
                                }
                            } else if 0xDC00 <= h < 0xE000 {
                                None
                            } else {
                                match sp_str(s, k + 6) {
                                    Some((rest, j)) => Some((seq![char_of_scalar(h)] + rest, j)),
                                    None => None,
                                }
                            },
                        }
                    }
                } else {
                    match sp_escape(e) {
                        Some(ch) => match sp_str(s, k + 2) {
                            Some((rest, j)) => Some((seq![ch] + rest, j)),
                            None => None,
                        },
                        None => None,
                    }
                }
            }
        } else if (c as u32) < 0x20 {
            None
        } else {
            match sp_str(s, k + 1) {
                Some((rest, j)) => Some((seq![c] + rest, j)),
                None => None,
            }
        }
    }
}

/// The first position at or after `k` holding no decimal digit.
pub open spec fn sp_digits_end(s: Seq<char>, k: int) -> int
    decreases s.len() - k,
{
    if k < 0 || k >= s.len() || !is_digit(s[k]) {
        k
    } else {
        sp_digits_end(s, k + 1)
    }
}

/// The value of the digit run `s[a..b)`.
pub open spec fn sp_digits_val(s: Seq<char>, a: int, b: int) -> int
    decreases b - a,
{
    if b <= a {
        0
    } else {
        sp_digits_val(s, a, b - 1) * 10 + sp_digit(s[b - 1])->Some_0
    }
}

/// A number at `i`: an optional minus, an integer part without leading
/// zeros, an optional fraction and an optional exponent. A plain integer
/// within the value range denotes `Int`; any other well-formed number
/// keeps its text as `NumText` (and is the wrong kind for every field).
pub open spec fn sp_num(s: Seq<char>, i: int) -> Option<(JsonModel, int)> {
    if i < 0 || i >= s.len() {
        None
    } else {
        let neg = s[i] == '-';
        let k = if neg {
            i + 1
        } else {
            i
        };
        if k >= s.len() || !is_digit(s[k]) {
            None
        } else {
            let ie = if s[k] == '0' {
                k + 1
            } else {
                sp_digits_end(s, k)
            };
            let fe = if ie < s.len() && s[ie] == '.' {
                if ie + 1 < s.len() && is_digit(s[ie + 1]) {
                    sp_digits_end(s, ie + 1)
                } else {
                    -1
                }
            } else {
                ie
            };
            if fe < 0 {
                None
            } else {
                let ee = if fe < s.len() && (s[fe] == 'e' || s[fe] == 'E') {
                    let x = if fe + 1 < s.len() && (s[fe + 1] == '+' || s[fe + 1] == '-') {
                        fe + 2
                    } else {
                        fe + 1
                    };
                    if x < s.len() && is_digit(s[x]) {
                        sp_digits_end(s, x)
                    } else {
                        -1
                    }
                } else {
                    fe
                };
                if ee < 0 {
                    None
                } else if ee > ie {
                    Some((JsonModel::NumText(s.subrange(i, ee)), ee))
                } else {
                    let mag = sp_digits_val(s, k, ie);
                    if neg {
                        if mag > INT_LIMIT {
                            Some((JsonModel::NumText(s.subrange(i, ie)), ie))
                        } else {
                            Some((JsonModel::Int(-mag), ie))
                        }
                    } else {
                        if mag >= INT_LIMIT {
                            Some((JsonModel::NumText(s.subrange(i, ie)), ie))
                        } else {
                            Some((JsonModel::Int(mag), ie))
                        }
                    }
                }
            }
        }
    }
}

/// A value at `i` (no leading whitespace): what it denotes and the
/// position after it. `depth` is the remaining nesting allowance.
pub open spec fn sp_value(s: Seq<char>, i: int, depth: int) -> Option<(JsonModel, int)>
    decreases s.len() - i, 0int,
{
    if depth <= 0 {
        None
    } else if i < 0 || i >= s.len() {
        None
    } else {
        let c = s[i];
        if c == 'n' {
            if i + 4 <= s.len() && s[i + 1] == 'u' && s[i + 2] == 'l' && s[i + 3] == 'l' {
                Some((JsonModel::Null, i + 4))
            } else {
                None
            }
        } else if c == 't' {
            if i + 4 <= s.len() && s[i + 1] == 'r' && s[i + 2] == 'u' && s[i + 3] == 'e' {
                Some((JsonModel::Bool(true), i + 4))
            } else {
                None
            }
        } else if c == 'f' {
            if i + 5 <= s.len() && s[i + 1] == 'a' && s[i + 2] == 'l' && s[i + 3] == 's' && s[i + 4]
                == 'e' {
                Some((JsonModel::Bool(false), i + 5))
            } else {
                None
            }
        } else if c == '"' {
            match sp_str(s, i + 1) {
                Some((cs, j)) => Some((JsonModel::Str(cs), j)),
                None => None,
            }
        } else if c == '[' {
            let k0 = sp_skip_ws(s, i + 1);
            if k0 <= i || k0 > s.len() {
                None
            } else if k0 < s.len() && s[k0] == ']' {
                Some((JsonModel::Arr(Seq::empty()), k0 + 1))
            } else {
                match sp_elems(s, k0, depth - 1) {
                    Some((es, j)) => Some((JsonModel::Arr(es), j)),
                    None => None,
                }
            }
        } else if c == '{' {
            let k0 = sp_skip_ws(s, i + 1);
            if k0 <= i || k0 > s.len() {
                None
            } else if k0 < s.len() && s[k0] == '}' {
                Some((JsonModel::Obj(Seq::empty()), k0 + 1))
            } else {
                match sp_members(s, k0, depth - 1) {
                    Some((ms, j)) => Some((JsonModel::Obj(ms), j)),
                    None => None,
                }
            }
        } else if c == '-' || is_digit(c) {
            sp_num(s, i)
        } else {
            None
        }
    }
}

/// One or more comma-separated elements from `k` up to the closing
/// bracket, each element at nesting allowance `depth`.
pub open spec fn sp_elems(s: Seq<char>, k: int, depth: int) -> Option<(Seq<JsonModel>, int)>
    decreases s.len() - k, 1int,
{
    match sp_value(s, k, depth) {
        None => None,
        Some((v, j)) => {
            let a = sp_skip_ws(s, j);
            if a < s.len() && s[a] == ',' {
                let b = sp_skip_ws(s, a + 1);
                if b <= k || b > s.len() {
                    None
                } else {
                    match sp_elems(s, b, depth) {
                        Some((rest, e)) => Some((seq![v] + rest, e)),
                        None => None,
                    }
                }
            } else if a < s.len() && s[a] == ']' {
                Some((seq![v], a + 1))
            } else {
                None
            }
        },
    }
}

/// One or more comma-separated `"name": value` members from `k` up to
/// the closing brace, each value at nesting allowance `depth`.
pub open spec fn sp_members(s: Seq<char>, k: int, depth: int) -> Option<
    (Seq<(Seq<char>, JsonModel)>, int),
>
    decreases s.len() - k, 1int,
{
    if !(k < s.len() && s[k] == '"') {
        None
    } else {
        match sp_str(s, k + 1) {
            None => None,
            Some((name, j)) => {
                let a = sp_skip_ws(s, j);
                if !(a < s.len() && s[a] == ':') {
                    None
                } else {
                    let b = sp_skip_ws(s, a + 1);
                    if b < k || b > s.len() {
                        None
                    } else {
                    match sp_value(s, b, depth) {
                        None => None,
                        Some((v, j2)) => {
                            let a2 = sp_skip_ws(s, j2);
                            if a2 < s.len() && s[a2] == ',' {
                                let b2 = sp_skip_ws(s, a2 + 1);
                                if b2 <= k || b2 > s.len() {
                                    None
                                } else {
                                    match sp_members(s, b2, depth) {
                                        Some((rest, e)) => Some((seq![(name, v)] + rest, e)),
                                        None => None,
                                    }
                                }
                            } else if a2 < s.len() && s[a2] == '}' {
                                Some((seq![(name, v)], a2 + 1))
                            } else {
                                None
                            }
                        },
                    }
                    }
                }
            },
        }
    }
}

/// What one line of text denotes: the single JSON value it holds, with
/// nothing but whitespace around it, or nothing at all.
pub open spec fn json_of_text(s: Seq<char>) -> Option<JsonModel> {
    let i = sp_skip_ws(s, 0);
    match sp_value(s, i, MAX_DEPTH as int) {
        Some((v, j)) => if sp_skip_ws(s, j) == s.len() {
            Some(v)
        } else {
            None
        },
        None => None,
    }
}

// ---------------------------------------------------------------------
// The reader, proved equal to the grammar.
// ---------------------------------------------------------------------

fn syntax(at: usize) -> (r: DecodeError)
    ensures
        r is Syntax,
{
    DecodeError::Syntax { offset: at }
}

fn skip_ws(s: &str, from: usize) -> (r: usize)
    requires
        from <= s@.len(),
    ensures
        r as int == sp_skip_ws(s@, from as int),
        from <= r <= s@.len(),
{
    let n = s.unicode_len();
    let mut i = from;
    while i < n
        invariant
            from <= i <= n,
            n == s@.len(),
            sp_skip_ws(s@, from as int) == sp_skip_ws(s@, i as int),
        decreases n - i,
    {
        let c = s.get_char(i);
        if c == ' ' || c == '\t' || c == '\n' || c == '\r' {
            i = i + 1;
        } else {
            return i;
        }
    }
    i
}

fn digit_val(c: char) -> (r: Option<u8>)
    ensures
        match r {
            Some(d) => sp_digit(c) == Some(d as int) && d < 10,
            None => sp_digit(c) is None,
        },
{
    match c {
        '0' => Some(0),
        '1' => Some(1),
        '2' => Some(2),
        '3' => Some(3),
        '4' => Some(4),
        '5' => Some(5),
        '6' => Some(6),
        '7' => Some(7),
        '8' => Some(8),
        '9' => Some(9),
        _ => None,
    }
}

fn hex_val(c: char) -> (r: Option<u32>)
    ensures
        match r {
            Some(d) => sp_hex(c) == Some(d as int) && d < 16,
            None => sp_hex(c) is None,
        },
{
    match c {
        '0' => Some(0),
        '1' => Some(1),
        '2' => Some(2),
        '3' => Some(3),
        '4' => Some(4),
        '5' => Some(5),
        '6' => Some(6),
        '7' => Some(7),
        '8' => Some(8),
        '9' => Some(9),
        'a' | 'A' => Some(10),
        'b' | 'B' => Some(11),
        'c' | 'C' => Some(12),
        'd' | 'D' => Some(13),
        'e' | 'E' => Some(14),
        'f' | 'F' => Some(15),
        _ => None,
    }
}

fn hex4(s: &str, i: usize) -> (r: Result<u32, DecodeError>)
    requires
        i + 4 <= s@.len() <= usize::MAX,
    ensures
        match r {
            Ok(v) => sp_hex4(s@, i as int) == Some(v as int) && v < 0x10000,
            Err(e) => sp_hex4(s@, i as int) is None && e is Syntax,
        },
{
    let h0 = match hex_val(s.get_char(i)) {
        Some(d) => d,
        None => { return Err(syntax(i)); },
    };
    let h1 = match hex_val(s.get_char(i + 1)) {
        Some(d) => d,
        None => { return Err(syntax(i + 1)); },
    };
    let h2 = match hex_val(s.get_char(i + 2)) {
        Some(d) => d,
        None => { return Err(syntax(i + 2)); },
    };
    let h3 = match hex_val(s.get_char(i + 3)) {
        Some(d) => d,
        None => { return Err(syntax(i + 3)); },
    };
    Ok(h0 * 4096 + h1 * 256 + h2 * 16 + h3)
}

/// The body of a quoted string, the opening quote at `i`, exactly as
/// `sp_str` describes.
fn parse_string(s: &str, i: usize) -> (r: Result<(Vec<char>, usize), DecodeError>)
    requires
        i < s@.len(),
    ensures
        match r {
            Ok((v, j)) => sp_str(s@, i + 1) == Some((v@, j as int)) && i < j <= s@.len(),
            Err(e) => sp_str(s@, i + 1) is None && e is Syntax,
        },
{
    let n = s.unicode_len();
    let mut out: Vec<char> = Vec::new();
    let mut k = i + 1;
    proof {
        assert(out@ =~= Seq::<char>::empty());
    }
    while k < n
        invariant
            i < k <= n,
            n == s@.len(),
            match sp_str(s@, k as int) {
                Some((rest, j)) => sp_str(s@, i + 1) == Some((out@ + rest, j)),
                None => sp_str(s@, i + 1) is None,
            },
        decreases n - k,
    {
        let ghost prev = out@;
        let ghost kk = k as int;
        let c = s.get_char(k);
        if c == '"' {
            proof {
                assert(out@ + Seq::<char>::empty() =~= out@);
            }
            return Ok((out, k + 1));
        } else if c == '\\' {
            if n - k < 2 {
                return Err(syntax(k));
            }
            let e = s.get_char(k + 1);
            if e == 'u' {
                if n - k < 6 {
                    return Err(syntax(k));
                }
                let h = match hex4(s, k + 2) {
                    Ok(v) => v,
                    Err(err) => { return Err(err); },
                };
                if 0xD800 <= h && h < 0xDC00 {
                    // High surrogate: a low surrogate escape must follow.
                    if n - k < 12 {
                        return Err(syntax(k));
                    }
                    if !(s.get_char(k + 6) == '\\' && s.get_char(k + 7) == 'u') {
                        return Err(syntax(k + 6));
                    }
                    let l = match hex4(s, k + 8) {
                        Ok(v) => v,
                        Err(err) => { return Err(err); },
                    };
                    if !(0xDC00 <= l && l < 0xE000) {
                        return Err(syntax(k + 8));
                    }
                    let code = 0x10000 + (h - 0xD800) * 0x400 + (l - 0xDC00);
                    let ch = match char_from_u32(code) {
                        Some(ch) => ch,
                        None => {
                            // A combined surrogate pair is always a scalar value.
                            proof {
                                assert(false);
                            }
                            return Err(syntax(k));
                        },
                    };
                    proof {
                        vstd::utf8::char_u32_cast(ch, code);
                        assert(char_of_scalar(code as int) == ch);
                    }
                    out.push(ch);
                    k = k + 12;
                    proof {
                        if sp_str(s@, k as int) is Some {
                            let (rest, j) = sp_str(s@, k as int)->Some_0;
                            assert(sp_str(s@, kk) == Some((seq![ch] + rest, j)));
                            assert(prev + (seq![ch] + rest) =~= out@ + rest);
                        } else {
                            assert(sp_str(s@, kk) is None);
                        }
                    }
                } else if 0xDC00 <= h && h < 0xE000 {
                    return Err(syntax(k + 2));
                } else {
                    let ch = match char_from_u32(h) {
                        Some(ch) => ch,
                        None => {
                            // Surrogates were ruled out above; h is a scalar value.
                            proof {
                                assert(false);
                            }
                            return Err(syntax(k));
                        },
                    };
                    proof {
                        vstd::utf8::char_u32_cast(ch, h);
                        assert(char_of_scalar(h as int) == ch);
                    }
                    out.push(ch);
                    k = k + 6;
                    proof {
                        if sp_str(s@, k as int) is Some {
                            let (rest, j) = sp_str(s@, k as int)->Some_0;
                            assert(sp_str(s@, kk) == Some((seq![ch] + rest, j)));
                            assert(prev + (seq![ch] + rest) =~= out@ + rest);
                        } else {
                            assert(sp_str(s@, kk) is None);
                        }
                    }
                }
            } else {
                let ch = if e == '"' {
                    '"'
                } else if e == '\\' {
                    '\\'
                } else if e == '/' {
                    '/'
                } else if e == 'b' {
                    '\u{8}'
                } else if e == 'f' {
                    '\u{c}'
                } else if e == 'n' {
                    '\n'
                } else if e == 'r' {
                    '\r'
                } else if e == 't' {
                    '\t'
                } else {
                    return Err(syntax(k + 1));
                };
                proof {
                    assert(sp_escape(s@[kk + 1]) == Some(ch));
                }
                out.push(ch);
                k = k + 2;
                proof {
                    if sp_str(s@, k as int) is Some {
                        let (rest, j) = sp_str(s@, k as int)->Some_0;
                        assert(sp_str(s@, kk) == Some((seq![ch] + rest, j)));
                        assert(prev + (seq![ch] + rest) =~= out@ + rest);
                    } else {
                        assert(sp_str(s@, kk) is None);
                    }
                }
            }
        } else {
            let u = c as u32;
            if u < 0x20 {
                return Err(syntax(k));
            }
            out.push(c);
            k = k + 1;
            proof {
                if sp_str(s@, k as int) is Some {
                    let (rest, j) = sp_str(s@, k as int)->Some_0;
                    assert(sp_str(s@, kk) == Some((seq![c] + rest, j)));
                    assert(prev + (seq![c] + rest) =~= out@ + rest);
                } else {
                    assert(sp_str(s@, kk) is None);
                }
            }
        }
    }
    Err(syntax(k))
}

/// The first position at or after `from` holding no digit.
fn digits_end(s: &str, from: usize) -> (r: usize)
    requires
        from <= s@.len(),
    ensures
        r as int == sp_digits_end(s@, from as int),
        from <= r <= s@.len(),
        forall|m: int| from <= m < r ==> is_digit(#[trigger] s@[m]),
{
    let n = s.unicode_len();
    let mut i = from;
    while i < n
        invariant
            from <= i <= n,
            n == s@.len(),
            sp_digits_end(s@, from as int) == sp_digits_end(s@, i as int),
            forall|m: int| from <= m < i ==> is_digit(#[trigger] s@[m]),
        decreases n - i,
    {
        match digit_val(s.get_char(i)) {
            Some(_) => {
                i = i + 1;
            },
            None => { return i; },
        }
    }
    i
}

/// A digit run never ends before it starts.
proof fn lemma_digits_end_ge(s: Seq<char>, x: int)
    ensures
        sp_digits_end(s, x) >= x,
    decreases s.len() - x,
{
    if !(x < 0 || x >= s.len() || !is_digit(s[x])) {
        lemma_digits_end_ge(s, x + 1);
    }
}

/// A digit run's value is never negative.
proof fn lemma_digits_val_nonneg(s: Seq<char>, a: int, b: int)
    requires
        forall|x: int| a <= x < b ==> is_digit(#[trigger] s[x]),
    ensures
        sp_digits_val(s, a, b) >= 0,
    decreases b - a,
{
    if b > a {
        lemma_digits_val_nonneg(s, a, b - 1);
    }
}

/// A digit run's value only grows as the run extends.
proof fn lemma_digits_val_grows(s: Seq<char>, a: int, m: int, b: int)
    requires
        a <= m <= b <= s.len(),
        forall|x: int| a <= x < b ==> is_digit(#[trigger] s[x]),
    ensures
        0 <= sp_digits_val(s, a, m) <= sp_digits_val(s, a, b),
    decreases b - m,
{
    lemma_digits_val_nonneg(s, a, m);
    if m < b {
        lemma_digits_val_grows(s, a, m, b - 1);
        lemma_digits_val_nonneg(s, a, b - 1);
    }
}

/// The value of the digit run `s[a..b)`, when it stays within the
/// integer bound; `None` when it exceeds it.
fn digits_val_u(s: &str, a: usize, b: usize) -> (r: Option<u128>)
    requires
        a <= b <= s@.len(),
        forall|m: int| a <= m < b ==> is_digit(#[trigger] s@[m]),
    ensures
        match r {
            Some(v) => v as int == sp_digits_val(s@, a as int, b as int) && v <= INT_LIMIT,
            None => sp_digits_val(s@, a as int, b as int) > INT_LIMIT,
        },
{
    let mut acc: u128 = 0;
    let mut k = a;
    while k < b
        invariant
            a <= k <= b <= s@.len(),
            forall|m: int| a <= m < b ==> is_digit(#[trigger] s@[m]),
            acc as int == sp_digits_val(s@, a as int, k as int),
            acc <= INT_LIMIT,
        decreases b - k,
    {
        let d = match digit_val(s.get_char(k)) {
            Some(d) => d,
            None => {
                // The whole range holds digits.
                proof {
                    assert(false);
                }
                return None;
            },
        };
        if acc > (INT_LIMIT - d as u128) / 10 {
            proof {
                assert(sp_digits_val(s@, a as int, k + 1 as int) > INT_LIMIT);
                lemma_digits_val_grows(s@, a as int, k + 1 as int, b as int);
            }
            return None;
        }
        acc = acc * 10 + d as u128;
        k = k + 1;
    }
    Some(acc)
}

/// A number token kept as its text.
fn num_text(s: &str, a: usize, b: usize) -> (r: Json)
    requires
        a <= b <= s@.len(),
    ensures
        r@ == JsonModel::NumText(s@.subrange(a as int, b as int)),
{
    Json::NumText(crate::json::str_chars(s.substring_char(a, b)))
}

/// A number at `i`, exactly as `sp_num` describes.
fn parse_num(s: &str, i: usize) -> (r: Result<(Json, usize), DecodeError>)
    requires
        i < s@.len(),
    ensures
        match r {
            Ok((v, j)) => sp_num(s@, i as int) == Some((v@, j as int)) && i < j <= s@.len(),
            Err(e) => sp_num(s@, i as int) is None && e is Syntax,
        },
{
    let n = s.unicode_len();
    let neg = s.get_char(i) == '-';
    let k = if neg {
        i + 1
    } else {
        i
    };
    if k >= n {
        return Err(syntax(k));
    }
    match digit_val(s.get_char(k)) {
        Some(_) => {},
        None => { return Err(syntax(k)); },
    }
    let ie = if s.get_char(k) == '0' {
        k + 1
    } else {
        digits_end(s, k)
    };
    let fe = if ie < n && s.get_char(ie) == '.' {
        if ie + 1 < n && digit_val(s.get_char(ie + 1)).is_some() {
            digits_end(s, ie + 1)
        } else {
            return Err(syntax(ie));
        }
    } else {
        ie
    };
    let ee = if fe < n && (s.get_char(fe) == 'e' || s.get_char(fe) == 'E') {
        let x = if fe + 1 < n && (s.get_char(fe + 1) == '+' || s.get_char(fe + 1) == '-') {
            fe + 2
        } else {
            fe + 1
        };
        if x < n && digit_val(s.get_char(x)).is_some() {
            digits_end(s, x)
        } else {
            return Err(syntax(fe));
        }
    } else {
        fe
    };
    if ee > ie {
        return Ok((num_text(s, i, ee), ee));
    }
    proof {
        lemma_digits_end_ge(s@, k + 1 as int);
        assert(ie > k);
    }
    match digits_val_u(s, k, ie) {
        Some(mag) => {
            if neg {
                let v: i128 = if mag == INT_LIMIT {
                    i128::MIN
                } else {
                    -(mag as i128)
                };
                proof {
                    assert(v as int == -(mag as int));
                }
                Ok((Json::Int(v), ie))
            } else {
                if mag == INT_LIMIT {
                    Ok((num_text(s, i, ie), ie))
                } else {
                    Ok((Json::Int(mag as i128), ie))
                }
            }
        },
        None => Ok((num_text(s, i, ie), ie)),
    }
}

/// One JSON value at `i` (no leading whitespace), exactly as `sp_value`
/// describes.
#[verifier::loop_isolation(false)]
fn parse_value(s: &str, i: usize, depth: u32) -> (r: Result<(Json, usize), DecodeError>)
    requires
        i <= s@.len(),
    ensures
        match r {
            Ok((v, j)) => sp_value(s@, i as int, depth as int) == Some((v@, j as int)) && i < j
                <= s@.len(),
            Err(e) => sp_value(s@, i as int, depth as int) is None && e is Syntax,
        },
    decreases s@.len() - i,
{
    if depth == 0 {
        return Err(syntax(i));
    }
    let n = s.unicode_len();
    if i >= n {
        return Err(syntax(i));
    }
    let c = s.get_char(i);
    if c == 'n' {
        if n - i >= 4 && s.get_char(i + 1) == 'u' && s.get_char(i + 2) == 'l' && s.get_char(i + 3)
            == 'l' {
            Ok((Json::Null, i + 4))
        } else {
            Err(syntax(i))
        }
    } else if c == 't' {
        if n - i >= 4 && s.get_char(i + 1) == 'r' && s.get_char(i + 2) == 'u' && s.get_char(i + 3)
            == 'e' {
            Ok((Json::Bool(true), i + 4))
        } else {
            Err(syntax(i))
        }
    } else if c == 'f' {
        if n - i >= 5 && s.get_char(i + 1) == 'a' && s.get_char(i + 2) == 'l' && s.get_char(i + 3)
            == 's' && s.get_char(i + 4) == 'e' {
            Ok((Json::Bool(false), i + 5))
        } else {
            Err(syntax(i))
        }
    } else if c == '"' {
        match parse_string(s, i) {
            Ok((v, j)) => Ok((Json::Str(v), j)),
            Err(e) => Err(e),
        }
    } else if c == '[' {
        let mut elems: Vec<Json> = Vec::new();
        let mut k = skip_ws(s, i + 1);
        let ghost k0 = k as int;
        let ghost d = depth as int - 1;
        if k < n && s.get_char(k) == ']' {
            proof {
                assert(crate::json::arr_model(elems@) =~= Seq::<JsonModel>::empty());
            }
            return Ok((Json::Arr(elems), k + 1));
        }
        loop
            invariant
                i < k <= n,
                n == s@.len(),
                depth >= 1,
                match sp_elems(s@, k as int, d) {
                    Some((rest, e)) => sp_elems(s@, k0, d) == Some(
                        (crate::json::arr_model(elems@) + rest, e),
                    ),
                    None => sp_elems(s@, k0, d) is None,
                },
            decreases n - k,
        {
            let ghost am = crate::json::arr_model(elems@);
            let (v, k2) = match parse_value(s, k, depth - 1) {
                Ok(p) => p,
                Err(e) => { return Err(e); },
            };
            let k3 = skip_ws(s, k2);
            proof {
                assert(crate::json::arr_model(elems@.push(v)) =~= am + seq![v@]);
            }
            elems.push(v);
            if k3 < n && s.get_char(k3) == ',' {
                let knew = skip_ws(s, k3 + 1);
                proof {
                    if sp_elems(s@, knew as int, d) is Some {
                        let (rest, e) = sp_elems(s@, knew as int, d)->Some_0;
                        assert(am + (seq![v@] + rest) =~= (am + seq![v@]) + rest);
                    }
                }
                k = knew;
            } else if k3 < n && s.get_char(k3) == ']' {
                proof {
                    assert(sp_elems(s@, k as int, d) == Some((seq![v@], k3 + 1 as int)));
                    assert(am + seq![v@] =~= crate::json::arr_model(elems@));
                }
                return Ok((Json::Arr(elems), k3 + 1));
            } else {
                return Err(syntax(k3));
            }
        }
    } else if c == '{' {
        let mut members: Vec<(Vec<char>, Json)> = Vec::new();
        let mut k = skip_ws(s, i + 1);
        let ghost k0 = k as int;
        let ghost d = depth as int - 1;
        if k < n && s.get_char(k) == '}' {
            proof {
                assert(crate::json::obj_model(members@) =~= Seq::<(Seq<char>, JsonModel)>::empty());
            }
            return Ok((Json::Obj(members), k + 1));
        }
        loop
            invariant
                i < k <= n,
                n == s@.len(),
                depth >= 1,
                match sp_members(s@, k as int, d) {
                    Some((rest, e)) => sp_members(s@, k0, d) == Some(
                        (crate::json::obj_model(members@) + rest, e),
                    ),
                    None => sp_members(s@, k0, d) is None,
                },
            decreases n - k,
        {
            let ghost om = crate::json::obj_model(members@);
            if !(k < n && s.get_char(k) == '"') {
                return Err(syntax(k));
            }
            let (name, k2) = match parse_string(s, k) {
                Ok(p) => p,
                Err(e) => { return Err(e); },
            };
            let k3 = skip_ws(s, k2);
            if !(k3 < n && s.get_char(k3) == ':') {
                return Err(syntax(k3));
            }
            let k4 = skip_ws(s, k3 + 1);
            let (v, k5) = match parse_value(s, k4, depth - 1) {
                Ok(p) => p,
                Err(e) => { return Err(e); },
            };
            let k6 = skip_ws(s, k5);
            proof {
                assert(crate::json::obj_model(members@.push((name, v))) =~= om + seq![
                    (name@, v@),
                ]);
            }
            members.push((name, v));
            if k6 < n && s.get_char(k6) == ',' {
                let knew = skip_ws(s, k6 + 1);
                proof {
                    if sp_members(s@, knew as int, d) is Some {
                        let (rest, e) = sp_members(s@, knew as int, d)->Some_0;
                        assert(om + (seq![(name@, v@)] + rest) =~= (om + seq![(name@, v@)]) + rest);
                    }
                }
                k = knew;
            } else if k6 < n && s.get_char(k6) == '}' {
                proof {
                    assert(sp_members(s@, k as int, d) == Some((seq![(name@, v@)], k6 + 1 as int)));
                    assert(om + seq![(name@, v@)] =~= crate::json::obj_model(members@));
                }
                return Ok((Json::Obj(members), k6 + 1));
            } else {
                return Err(syntax(k6));
            }
        }
    } else if c == '-' {
        match parse_num(s, i) {
            Ok((v, j)) => Ok((v, j)),
            Err(e) => Err(e),
        }
    } else {
        match digit_val(c) {
            Some(_) => match parse_num(s, i) {
                Ok((v, j)) => Ok((v, j)),
                Err(e) => Err(e),
            },
            None => Err(syntax(i)),
        }
    }
}

/// Reads one line of text as the single JSON value it holds, exactly as
/// `json_of_text` describes: `Ok` of that value when the line denotes
/// one, else a `Syntax` error with the character offset at which reading
/// stopped.
pub fn parse_json(s: &str) -> (r: Result<Json, DecodeError>)
    ensures
        match r {
            Ok(j) => json_of_text(s@) == Some(j@),
            Err(e) => json_of_text(s@) is None && e is Syntax,
        },
{
    let n = s.unicode_len();
    let i = skip_ws(s, 0);
    match parse_value(s, i, MAX_DEPTH) {
        Ok((v, j)) => {
            let k = skip_ws(s, j);
            if k == n {
                Ok(v)
            } else {
                Err(syntax(k))
            }
        },
        Err(e) => Err(e),
    }
}

} // verus!
