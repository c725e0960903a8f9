//! Rendering a JSON value as wire text, in the producer's compact style:
//! no whitespace, members in order, strings escaped exactly as the
//! producer escapes them (quote, backslash, and control characters only).

use vstd::prelude::*;

use crate::ext::chars_to_string;
use crate::json::{arr_model, obj_model, Json, JsonModel};

verus! {

broadcast use vstd::std_specs::vec::group_vec_axioms;

/// The character of one decimal digit.
pub open spec fn digit_char(d: int) -> char
    recommends
        0 <= d < 10,
{
    if d == 0 {
        '0'
    } else if d == 1 {
        '1'
    } else if d == 2 {
        '2'
    } else if d == 3 {
        '3'
    } else if d == 4 {
        '4'
    } else if d == 5 {
        '5'
    } else if d == 6 {
        '6'
    } else if d == 7 {
        '7'
    } else if d == 8 {
        '8'
    } else {
        '9'
    }
}

/// The character of one lowercase hexadecimal digit.
pub open spec fn hex_char(d: int) -> char
    recommends
        0 <= d < 16,
{
    if d < 10 {
        digit_char(d)
    } else if d == 10 {
        'a'
    } else if d == 11 {
        'b'
    } else if d == 12 {
        'c'
    } else if d == 13 {
        'd'
    } else if d == 14 {
        'e'
    } else {
        'f'
    }
}

/// The decimal digits of a nonnegative integer, most significant first.
pub open spec fn dec_digits(n: int) -> Seq<char>
    recommends
        n >= 0,
    decreases n,
{
    if n < 10 {
        seq![digit_char(n)]
    } else {
        dec_digits(n / 10) + seq![digit_char(n % 10)]
    }
}

/// The wire text of an integer.
pub open spec fn ser_int(n: int) -> Seq<char> {
    if n < 0 {
        seq!['-'] + dec_digits(-n)
    } else {
        dec_digits(n)
    }
}

/// The escape of one character inside a string: quote and backslash are
/// escaped, control characters take their short escapes or the `\u00..`
/// form, and everything else stands as itself.
pub open spec fn esc_char(c: char) -> Seq<char> {
    if c == '"' {
        seq!['\\', '"']
    } else if c == '\\' {
        seq!['\\', '\\']
    } else if c == '\u{8}' {
        seq!['\\', 'b']
    } else if c == '\t' {
        seq!['\\', 't']
    } else if c == '\n' {
        seq!['\\', 'n']
    } else if c == '\u{c}' {
        seq!['\\', 'f']
    } else if c == '\r' {
        seq!['\\', 'r']
    } else if (c as u32) < 0x20 {
        seq!['\\', 'u', '0', '0', hex_char((c as u32) as int / 16), hex_char((c as u32) as int % 16)]
    } else {
        seq![c]
    }
}

/// The escaped body of a string, from position `i` on.
pub open spec fn ser_str_body(s: Seq<char>, i: int) -> Seq<char>
    decreases s.len() - i,
{
    if i < 0 || i >= s.len() {
        Seq::empty()
    } else {
        esc_char(s[i]) + ser_str_body(s, i + 1)
    }
}

/// The wire text of a string: quoted and escaped.
pub open spec fn ser_str(s: Seq<char>) -> Seq<char> {
    seq!['"'] + ser_str_body(s, 0) + seq!['"']
}

/// The wire text of a JSON value.
pub open spec fn ser_jm(j: JsonModel) -> Seq<char>
    decreases j, 0int,
{
    match j {
        JsonModel::Null => "null"@,
        JsonModel::Bool(b) => if b {
            "true"@
        } else {
            "false"@
        },
        JsonModel::Int(n) => ser_int(n),
        JsonModel::NumText(t) => t,
        JsonModel::Str(s) => ser_str(s),
        JsonModel::Arr(xs) => seq!['['] + ser_arr_from(xs, 0) + seq![']'],
        JsonModel::Obj(fs) => seq!['{'] + ser_obj_from(fs, 0) + seq!['}'],
    }
}

/// The comma-separated elements of an array, from position `i` on.
pub open spec fn ser_arr_from(xs: Seq<JsonModel>, i: int) -> Seq<char>
    decreases xs, xs.len() - i,
{
    if i < 0 || i >= xs.len() {
        Seq::empty()
    } else {
        (if i > 0 {
            seq![',']
        } else {
            Seq::empty()
        }) + ser_jm(xs[i]) + ser_arr_from(xs, i + 1)
    }
}

/// The comma-separated members of an object, from position `i` on.
pub open spec fn ser_obj_from(fs: Seq<(Seq<char>, JsonModel)>, i: int) -> Seq<char>
    decreases fs, fs.len() - i,
{
    if i < 0 || i >= fs.len() {
        Seq::empty()
    } else {
        (if i > 0 {
            seq![',']
        } else {
            Seq::empty()
        }) + ser_str(fs[i].0) + seq![':'] + ser_jm(fs[i].1) + ser_obj_from(fs, i + 1)
    }
}

fn digit_of(d: u128) -> (c: char)
    requires
        d < 10,
    ensures
        c == digit_char(d as int),
{
    if d == 0 {
        '0'
    } else if d == 1 {
        '1'
    } else if d == 2 {
        '2'
    } else if d == 3 {
        '3'
    } else if d == 4 {
        '4'
    } else if d == 5 {
        '5'
    } else if d == 6 {
        '6'
    } else if d == 7 {
        '7'
    } else if d == 8 {
        '8'
    } else {
        '9'
    }
}

fn hex_of(d: u32) -> (c: char)
    requires
        d < 16,
    ensures
        c == hex_char(d as int),
{
    if d < 10 {
        digit_of(d as u128)
    } else if d == 10 {
        'a'
    } else if d == 11 {
        'b'
    } else if d == 12 {
        'c'
    } else if d == 13 {
        'd'
    } else if d == 14 {
        'e'
    } else {
        'f'
    }
}

fn write_dec(n: u128, out: &mut Vec<char>)
    ensures
        final(out)@ == old(out)@ + dec_digits(n as int),
    decreases n,
{
    if n < 10 {
        out.push(digit_of(n));
    } else {
        write_dec(n / 10, out);
        out.push(digit_of(n % 10));
    }
}

fn write_int(n: i128, out: &mut Vec<char>)
    ensures
        final(out)@ == old(out)@ + ser_int(n as int),
{
    if n < 0 {
        out.push('-');
        let mag: u128 = if n == i128::MIN {
            170141183460469231731687303715884105728u128
        } else {
            (-n) as u128
        };
        write_dec(mag, out);
        proof {
            assert(mag as int == -(n as int));
            assert(out@ =~= old(out)@ + (seq!['-'] + dec_digits(-(n as int))));
        }
    } else {
        write_dec(n as u128, out);
    }
}

fn write_escaped(c: char, out: &mut Vec<char>)
    ensures
        final(out)@ == old(out)@ + esc_char(c),
{
    if c == '"' {
        out.push('\\');
        out.push('"');
    } else if c == '\\' {
        out.push('\\');
        out.push('\\');
    } else if c == '\u{8}' {
        out.push('\\');
        out.push('b');
    } else if c == '\t' {
        out.push('\\');
        out.push('t');
    } else if c == '\n' {
        out.push('\\');
        out.push('n');
    } else if c == '\u{c}' {
        out.push('\\');
        out.push('f');
    } else if c == '\r' {
        out.push('\\');
        out.push('r');
    } else {
        let u = c as u32;
        if u < 0x20 {
            out.push('\\');
            out.push('u');
            out.push('0');
            out.push('0');
            out.push(hex_of(u / 16));
            out.push(hex_of(u % 16));
        } else {
            out.push(c);
        }
    }
    proof {
        assert(out@ =~= old(out)@ + esc_char(c));
    }
}

fn write_str(s: &Vec<char>, out: &mut Vec<char>)
    ensures
        final(out)@ == old(out)@ + ser_str(s@),
{
    out.push('"');
    let mut i: usize = 0;
    while i < s.len()
        invariant
            i <= s@.len(),
            out@ + ser_str_body(s@, i as int) == old(out)@ + seq!['"'] + ser_str_body(s@, 0),
        decreases s@.len() - i,
    {
        let ghost before = out@;
        write_escaped(s[i], out);
        proof {
            assert(ser_str_body(s@, i as int) == esc_char(s@[i as int]) + ser_str_body(
                s@,
                i + 1 as int,
            ));
            assert(out@ + ser_str_body(s@, i + 1 as int) =~= before + ser_str_body(s@, i as int));
        }
        i = i + 1;
    }
    proof {
        assert(ser_str_body(s@, i as int) =~= Seq::empty());
        assert(out@ =~= old(out)@ + seq!['"'] + ser_str_body(s@, 0));
    }
    out.push('"');
    proof {
        assert(out@ =~= old(out)@ + ser_str(s@));
    }
}

/// Writes the wire text of a value, exactly as `ser_jm` describes.
#[verifier::loop_isolation(false)]
fn write_jm(j: &Json, out: &mut Vec<char>)
    ensures
        final(out)@ == old(out)@ + ser_jm(j@),
    decreases j,
{
    match j {
        Json::Null => {
            proof {
                reveal_strlit("null");
            }
            out.push('n');
            out.push('u');
            out.push('l');
            out.push('l');
            proof {
                assert(out@ =~= old(out)@ + "null"@);
            }
        },
        Json::Bool(b) => {
            if *b {
                proof {
                    reveal_strlit("true");
                }
                out.push('t');
                out.push('r');
                out.push('u');
                out.push('e');
                proof {
                    assert(out@ =~= old(out)@ + "true"@);
                }
            } else {
                proof {
                    reveal_strlit("false");
                }
                out.push('f');
                out.push('a');
                out.push('l');
                out.push('s');
                out.push('e');
                proof {
                    assert(out@ =~= old(out)@ + "false"@);
                }
            }
        },
        Json::Int(n) => {
            write_int(*n, out);
        },
        Json::NumText(t) => {
            let mut i: usize = 0;
            while i < t.len()
                invariant
                    i <= t@.len(),
                    out@ == old(out)@ + t@.subrange(0, i as int),
                decreases t@.len() - i,
            {
                out.push(t[i]);
                proof {
                    assert(out@ =~= old(out)@ + t@.subrange(0, i + 1 as int));
                }
                i = i + 1;
            }
            proof {
                assert(out@ =~= old(out)@ + t@);
            }
        },
        Json::Str(s) => {
            write_str(s, out);
        },
        Json::Arr(xs) => {
            let ghost m = arr_model(xs@);
            out.push('[');
            let mut i: usize = 0;
            proof {
                assert(out@ + ser_arr_from(m, 0) =~= old(out)@ + seq!['['] + ser_arr_from(m, 0));
            }
            while i < xs.len()
                invariant
                    i <= xs@.len(),
                    m == arr_model(xs@),
                    m.len() == xs@.len(),
                    forall|k: int| 0 <= k < m.len() ==> m[k] == xs@[k]@,
                    out@ + ser_arr_from(m, i as int) == old(out)@ + seq!['['] + ser_arr_from(m, 0),
                decreases xs@.len() - i,
            {
                let ghost before = out@;
                if i > 0 {
                    out.push(',');
                }
                write_jm(&xs[i], out);
                proof {
                    let head: Seq<char> = if i > 0 {
                        seq![',']
                    } else {
                        Seq::empty()
                    };
                    assert(ser_arr_from(m, i as int) == head + ser_jm(m[i as int]) + ser_arr_from(
                        m,
                        i + 1 as int,
                    ));
                    assert(out@ + ser_arr_from(m, i + 1 as int) =~= before + ser_arr_from(
                        m,
                        i as int,
                    ));
                }
                i = i + 1;
            }
            proof {
                assert(ser_arr_from(m, i as int) =~= Seq::empty());
            }
            out.push(']');
            proof {
                assert(out@ =~= old(out)@ + (seq!['['] + ser_arr_from(m, 0) + seq![']']));
            }
        },
        Json::Obj(fs) => {
            let ghost m = obj_model(fs@);
            out.push('{');
            let mut i: usize = 0;
            proof {
                assert(out@ + ser_obj_from(m, 0) =~= old(out)@ + seq!['{'] + ser_obj_from(m, 0));
            }
            while i < fs.len()
                invariant
                    i <= fs@.len(),
                    m == obj_model(fs@),
                    m.len() == fs@.len(),
                    forall|k: int| 0 <= k < m.len() ==> m[k] == (fs@[k].0@, fs@[k].1@),
                    out@ + ser_obj_from(m, i as int) == old(out)@ + seq!['{'] + ser_obj_from(m, 0),
                decreases fs@.len() - i,
            {
                let ghost before = out@;
                if i > 0 {
                    out.push(',');
                }
                write_str(&fs[i].0, out);
                out.push(':');
                write_jm(&fs[i].1, out);
                proof {
                    let head: Seq<char> = if i > 0 {
                        seq![',']
                    } else {
                        Seq::empty()
                    };
                    assert(ser_obj_from(m, i as int) == head + ser_str(m[i as int].0) + seq![':']
                        + ser_jm(m[i as int].1) + ser_obj_from(m, i + 1 as int));
                    assert(out@ + ser_obj_from(m, i + 1 as int) =~= before + ser_obj_from(
                        m,
                        i as int,
                    ));
                }
                i = i + 1;
            }
            proof {
                assert(ser_obj_from(m, i as int) =~= Seq::empty());
            }
            out.push('}');
            proof {
                assert(out@ =~= old(out)@ + (seq!['{'] + ser_obj_from(m, 0) + seq!['}']));
            }
        },
    }
}

/// The wire text of a JSON value, exactly as `ser_jm` describes.
pub fn json_to_string(j: &Json) -> (r: String)
    ensures
        r@ == ser_jm(j@),
{
    let mut out: Vec<char> = Vec::new();
    write_jm(j, &mut out);
    proof {
        assert(out@ =~= ser_jm(j@));
    }
    chars_to_string(&out)
}

} // verus!
