//! A small JSON value tree, the intermediate form between a line of wire
//! text and a typed event. Strings are held as their characters. Integer
//! numbers are held as values; a number with a fraction or exponent, or
//! beyond the integer range, is held as its text (`NumText`), which no
//! event field accepts.

use vstd::prelude::*;

verus! {

/// One JSON value. Object members keep their wire order; when a member
/// name is looked up, the first occurrence wins.
#[derive(Debug, PartialEq, Eq)]
pub enum Json {
    Null,
    Bool(bool),
    Int(i128),
    /// A number the wire may carry but no event field can hold: one with
    /// a fraction or exponent, or an integer beyond the value range. It
    /// is kept as its text, and reading it as any field is a mismatch.
    NumText(Vec<char>),
    Str(Vec<char>),
    Arr(Vec<Json>),
    Obj(Vec<(Vec<char>, Json)>),
}

/// The mathematical shape of a JSON value, used by every contract.
pub enum JsonModel {
    Null,
    Bool(bool),
    Int(int),
    NumText(Seq<char>),
    Str(Seq<char>),
    Arr(Seq<JsonModel>),
    Obj(Seq<(Seq<char>, JsonModel)>),
}

/// The model of an object's member vector: what `Json::Obj(fs)@` holds.
pub open spec fn obj_model(fs: Seq<(Vec<char>, Json)>) -> Seq<(Seq<char>, JsonModel)>
    decreases fs,
{
    Seq::new(fs.len(), |i: int| if 0 <= i < fs.len() {
        (fs[i].0@, fs[i].1@)
    } else {
        (Seq::empty(), JsonModel::Null)
    })
}

/// The model of an array's element vector: what `Json::Arr(xs)@` holds.
pub open spec fn arr_model(xs: Seq<Json>) -> Seq<JsonModel>
    decreases xs,
{
    Seq::new(xs.len(), |i: int| if 0 <= i < xs.len() {
        xs[i]@
    } else {
        JsonModel::Null
    })
}

impl View for Json {
    type V = JsonModel;

    open spec fn view(&self) -> JsonModel
        decreases self,
    {
        match self {
            Json::Null => JsonModel::Null,
            Json::Bool(b) => JsonModel::Bool(*b),
            Json::Int(n) => JsonModel::Int(*n as int),
            Json::NumText(t) => JsonModel::NumText(t@),
            Json::Str(s) => JsonModel::Str(s@),
            Json::Arr(xs) => JsonModel::Arr(arr_model(xs@)),
            Json::Obj(fs) => JsonModel::Obj(obj_model(fs@)),
        }
    }
}

/// The first member of `fs` named `k`, if any: the wire format may in
/// principle repeat a name, and the first occurrence wins.
pub open spec fn jm_lookup(fs: Seq<(Seq<char>, JsonModel)>, k: Seq<char>) -> Option<JsonModel>
    decreases fs.len(),
{
    if fs.len() == 0 {
        None
    } else if fs[0].0 == k {
        Some(fs[0].1)
    } else {
        jm_lookup(fs.drop_first(), k)
    }
}

/// Looking a name up finds the member at `i` when no earlier member
/// shares its name.
pub proof fn lemma_lookup_at(fs: Seq<(Seq<char>, JsonModel)>, i: int)
    requires
        0 <= i < fs.len(),
        forall|j: int| 0 <= j < i ==> (#[trigger] fs[j]).0 != fs[i].0,
    ensures
        jm_lookup(fs, fs[i].0) == Some(fs[i].1),
    decreases i,
{
    if i > 0 {
        assert(fs.drop_first()[i - 1] == fs[i]);
        lemma_lookup_at(fs.drop_first(), i - 1);
    }
}

/// Looking a name up finds nothing when no member bears it.
pub proof fn lemma_lookup_absent(fs: Seq<(Seq<char>, JsonModel)>, k: Seq<char>)
    requires
        forall|j: int| 0 <= j < fs.len() ==> (#[trigger] fs[j]).0 != k,
    ensures
        jm_lookup(fs, k) is None,
    decreases fs.len(),
{
    if fs.len() > 0 {
        lemma_lookup_absent(fs.drop_first(), k);
    }
}

/// True of two equal character sequences; the executable side of every
/// member-name comparison.
pub fn chars_eq_str(v: &Vec<char>, s: &str) -> (r: bool)
    ensures
        r <==> v@ == s@,
{
    let n = s.unicode_len();
    if v.len() != n {
        return false;
    }
    let mut i: usize = 0;
    while i < n
        invariant
            i <= n,
            n == s@.len(),
            v@.len() == n,
            forall|j: int| 0 <= j < i ==> v@[j] == s@[j],
        decreases n - i,
    {
        if v[i] != s.get_char(i) {
            return false;
        }
        i = i + 1;
    }
    proof {
        assert(v@ =~= s@);
    }
    true
}

/// The characters of `s`, as an owned vector.
pub fn str_chars(s: &str) -> (r: Vec<char>)
    ensures
        r@ == s@,
{
    let n = s.unicode_len();
    let mut r: Vec<char> = Vec::new();
    let mut i: usize = 0;
    while i < n
        invariant
            i <= n,
            n == s@.len(),
            r@ == s@.subrange(0, i as int),
        decreases n - i,
    {
        r.push(s.get_char(i));
        proof {
            assert(r@ =~= s@.subrange(0, i + 1 as int));
        }
        i = i + 1;
    }
    proof {
        assert(r@ =~= s@);
    }
    r
}

/// Looks a member name up in an object's member list, first occurrence
/// first, as `jm_lookup` describes.
pub fn lookup<'a>(fs: &'a Vec<(Vec<char>, Json)>, key: &str) -> (r: Option<&'a Json>)
    ensures
        match r {
            Some(v) => jm_lookup(obj_model(fs@), key@) == Some(v@),
            None => jm_lookup(obj_model(fs@), key@) is None,
        },
{
    let ghost m = obj_model(fs@);
    proof {
        assert(m.skip(0) =~= m);
    }
    let mut i: usize = 0;
    while i < fs.len()
        invariant
            i <= fs@.len(),
            m == obj_model(fs@),
            m.len() == fs@.len(),
            forall|j: int| 0 <= j < m.len() ==> m[j] == (fs@[j].0@, fs@[j].1@),
            jm_lookup(m, key@) == jm_lookup(m.skip(i as int), key@),
        decreases fs@.len() - i,
    {
        if chars_eq_str(&fs[i].0, key) {
            proof {
                assert(m.skip(i as int)[0] == m[i as int]);
            }
            return Some(&fs[i].1);
        }
        proof {
            assert(m.skip(i as int).drop_first() =~= m.skip(i + 1 as int));
        }
        i = i + 1;
    }
    proof {
        assert(m.skip(i as int).len() == 0);
    }
    None
}

} // verus!
