//! The event model: the four event shapes the wire format carries, how a
//! JSON value decodes into one, and how one encodes back. The wire
//! envelope is `{"type": <tag>, "data": {...}}` with lowercase tags
//! `begin`, `end`, `match`, `context`; any other tag is a mismatch.
//!
//! Unknown members of an object are ignored, and the first occurrence of
//! a member name wins, as the stream's producer never repeats names.
//! The optional members (`binary_offset`, `line_number`) decode to "not
//! present" both when absent and when explicitly `null`.

use vstd::prelude::*;

use crate::data::{data_of_jm, data_to_jm, ArbitraryData, DataModel};
use crate::error::DecodeError;
use crate::ext::chars_to_string;
use crate::json::{arr_model, jm_lookup, obj_model, str_chars, Json, JsonModel};

verus! {

/// Elapsed time for one finished file search: whole seconds, nanosecond
/// remainder, and the producer's own human-readable rendering, kept
/// verbatim.
#[derive(Debug, PartialEq, Eq)]
pub struct Duration {
    pub secs: u64,
    pub nanos: u64,
    pub human: String,
}

/// Aggregate counters for one finished file search.
#[derive(Debug, PartialEq, Eq)]
pub struct Stats {
    pub elapsed: Duration,
    pub searches: i64,
    pub searches_with_match: u64,
    pub bytes_searched: u64,
    pub bytes_printed: u64,
    pub matched_lines: u64,
    pub matches: u64,
}

/// One matched span inside a `lines` payload: the matched text itself and
/// a half-open byte range into the payload. The wire name of `matched` is
/// `match`, which this language reserves.
#[derive(Debug, PartialEq, Eq)]
pub struct Submatch {
    pub matched: ArbitraryData,
    pub start: u64,
    pub end: u64,
}

/// One decoded event: exactly one of the four wire shapes.
#[derive(Debug, PartialEq, Eq)]
pub enum Type {
    /// Search of one file began.
    Begin { path: ArbitraryData },
    /// Search of one file finished; `binary_offset` is present only when
    /// a binary match truncated the search.
    End { path: ArbitraryData, binary_offset: Option<i64>, stats: Stats },
    /// One matching line (or block).
    Match {
        path: ArbitraryData,
        lines: ArbitraryData,
        line_number: Option<u64>,
        absolute_offset: i64,
        submatches: Vec<Submatch>,
    },
    /// One contextual line around a match; same shape as `Match`.
    Context {
        path: ArbitraryData,
        lines: ArbitraryData,
        line_number: Option<u64>,
        absolute_offset: i64,
        submatches: Vec<Submatch>,
    },
}

/// Mathematical shape of a `Duration`.
pub struct DurationModel {
    pub secs: int,
    pub nanos: int,
    pub human: Seq<char>,
}

/// Mathematical shape of a `Stats`.
pub struct StatsModel {
    pub elapsed: DurationModel,
    pub searches: int,
    pub searches_with_match: int,
    pub bytes_searched: int,
    pub bytes_printed: int,
    pub matched_lines: int,
    pub matches: int,
}

/// Mathematical shape of a `Submatch`.
pub struct SubmatchModel {
    pub matched: DataModel,
    pub start: int,
    pub end: int,
}

/// Mathematical shape of an event.
pub enum EventModel {
    Begin { path: DataModel },
    End { path: DataModel, binary_offset: Option<int>, stats: StatsModel },
    Match {
        path: DataModel,
        lines: DataModel,
        line_number: Option<int>,
        absolute_offset: int,
        submatches: Seq<SubmatchModel>,
    },
    Context {
        path: DataModel,
        lines: DataModel,
        line_number: Option<int>,
        absolute_offset: int,
        submatches: Seq<SubmatchModel>,
    },
}

impl View for Duration {
    type V = DurationModel;

    open spec fn view(&self) -> DurationModel {
        DurationModel { secs: self.secs as int, nanos: self.nanos as int, human: self.human@ }
    }
}

impl View for Stats {
    type V = StatsModel;

    open spec fn view(&self) -> StatsModel {
        StatsModel {
            elapsed: self.elapsed@,
            searches: self.searches as int,
            searches_with_match: self.searches_with_match as int,
            bytes_searched: self.bytes_searched as int,
            bytes_printed: self.bytes_printed as int,
            matched_lines: self.matched_lines as int,
            matches: self.matches as int,
        }
    }
}

impl View for Submatch {
    type V = SubmatchModel;

    open spec fn view(&self) -> SubmatchModel {
        SubmatchModel { matched: self.matched@, start: self.start as int, end: self.end as int }
    }
}

/// The model of a submatch vector, element by element.
pub open spec fn submatches_model(s: Seq<Submatch>) -> Seq<SubmatchModel> {
    Seq::new(s.len(), |i: int| s[i]@)
}

/// The model of an optional integer field, as an optional mathematical
/// integer.
pub open spec fn opt_model(o: Option<i64>) -> Option<int> {
    match o {
        Some(n) => Some(n as int),
        None => None,
    }
}

/// The model of an optional unsigned integer field.
pub open spec fn opt_model_u(o: Option<u64>) -> Option<int> {
    match o {
        Some(n) => Some(n as int),
        None => None,
    }
}

impl View for Type {
    type V = EventModel;

    open spec fn view(&self) -> EventModel {
        match self {
            Type::Begin { path } => EventModel::Begin { path: path@ },
            Type::End { path, binary_offset, stats } => EventModel::End {
                path: path@,
                binary_offset: opt_model(*binary_offset),
                stats: stats@,
            },
            Type::Match { path, lines, line_number, absolute_offset, submatches } => EventModel::Match {
                path: path@,
                lines: lines@,
                line_number: opt_model_u(*line_number),
                absolute_offset: *absolute_offset as int,
                submatches: submatches_model(submatches@),
            },
            Type::Context { path, lines, line_number, absolute_offset, submatches } => EventModel::Context {
                path: path@,
                lines: lines@,
                line_number: opt_model_u(*line_number),
                absolute_offset: *absolute_offset as int,
                submatches: submatches_model(submatches@),
            },
        }
    }
}

// ---------------------------------------------------------------------
// Well-formedness: every value a decoded event can hold. The numeric
// bounds are exactly what the executable field types can carry, so every
// `Type` value's model is well-formed.
// ---------------------------------------------------------------------

pub open spec fn wf_unsigned(n: int) -> bool {
    0 <= n <= u64::MAX
}

pub open spec fn wf_signed(n: int) -> bool {
    i64::MIN <= n <= i64::MAX
}

pub open spec fn wf_duration(d: DurationModel) -> bool {
    wf_unsigned(d.secs) && wf_unsigned(d.nanos)
}

pub open spec fn wf_stats(s: StatsModel) -> bool {
    wf_duration(s.elapsed) && wf_signed(s.searches) && wf_unsigned(s.searches_with_match)
        && wf_unsigned(s.bytes_searched) && wf_unsigned(s.bytes_printed)
        && wf_unsigned(s.matched_lines) && wf_unsigned(s.matches)
}

pub open spec fn wf_submatch(m: SubmatchModel) -> bool {
    wf_unsigned(m.start) && wf_unsigned(m.end)
}

/// The shared well-formedness of the `match`/`context` payload fields.
pub open spec fn wf_line_fields(
    line_number: Option<int>,
    absolute_offset: int,
    submatches: Seq<SubmatchModel>,
) -> bool {
    (match line_number {
        Some(n) => wf_unsigned(n),
        None => true,
    }) && wf_signed(absolute_offset) && (forall|i: int|
        0 <= i < submatches.len() ==> wf_submatch(#[trigger] submatches[i]))
}

pub open spec fn wf_event(e: EventModel) -> bool {
    match e {
        EventModel::Begin { .. } => true,
        EventModel::End { binary_offset, stats, .. } => (match binary_offset {
            Some(n) => wf_signed(n),
            None => true,
        }) && wf_stats(stats),
        EventModel::Match { line_number, absolute_offset, submatches, .. } => wf_line_fields(
            line_number,
            absolute_offset,
            submatches,
        ),
        EventModel::Context { line_number, absolute_offset, submatches, .. } => wf_line_fields(
            line_number,
            absolute_offset,
            submatches,
        ),
    }
}

/// Every executable event's model is well-formed: the field types cannot
/// hold anything else.
pub proof fn lemma_view_wf(t: &Type)
    ensures
        wf_event(t@),
{
    match t {
        Type::Match { submatches, .. } | Type::Context { submatches, .. } => {
            assert forall|i: int| 0 <= i < submatches_model(submatches@).len() implies wf_submatch(
                #[trigger] submatches_model(submatches@)[i],
            ) by {
                assert(submatches_model(submatches@)[i] == submatches@[i]@);
            }
        },
        _ => {},
    }
}

// ---------------------------------------------------------------------
// Decoding, in specification: how a JSON value reads as an event.
// ---------------------------------------------------------------------

/// A mandatory signed-integer member: present, an integer, in range.
pub open spec fn signed_field(fs: Seq<(Seq<char>, JsonModel)>, k: Seq<char>) -> Option<int> {
    match jm_lookup(fs, k) {
        Some(JsonModel::Int(n)) => if wf_signed(n) {
            Some(n)
        } else {
            None
        },
        _ => None,
    }
}

/// A mandatory unsigned-integer member: present, an integer, in range.
pub open spec fn unsigned_field(fs: Seq<(Seq<char>, JsonModel)>, k: Seq<char>) -> Option<int> {
    match jm_lookup(fs, k) {
        Some(JsonModel::Int(n)) => if wf_unsigned(n) {
            Some(n)
        } else {
            None
        },
        _ => None,
    }
}

/// An optional signed-integer member: absent and explicit `null` both
/// read as "not present" (`Some(None)`); anything but an in-range
/// integer is a mismatch (`None`).
pub open spec fn opt_signed_field(fs: Seq<(Seq<char>, JsonModel)>, k: Seq<char>) -> Option<
    Option<int>,
> {
    match jm_lookup(fs, k) {
        None => Some(None),
        Some(JsonModel::Null) => Some(None),
        Some(JsonModel::Int(n)) => if wf_signed(n) {
            Some(Some(n))
        } else {
            None
        },
        Some(_) => None,
    }
}

/// An optional unsigned-integer member, with the same absent/`null`
/// collapse.
pub open spec fn opt_unsigned_field(fs: Seq<(Seq<char>, JsonModel)>, k: Seq<char>) -> Option<
    Option<int>,
> {
    match jm_lookup(fs, k) {
        None => Some(None),
        Some(JsonModel::Null) => Some(None),
        Some(JsonModel::Int(n)) => if wf_unsigned(n) {
            Some(Some(n))
        } else {
            None
        },
        Some(_) => None,
    }
}

/// A mandatory member decoded as an `ArbitraryData`.
pub open spec fn data_field(fs: Seq<(Seq<char>, JsonModel)>, k: Seq<char>) -> Option<DataModel> {
    match jm_lookup(fs, k) {
        Some(v) => data_of_jm(v),
        None => None,
    }
}

/// How an object's members read as a `Duration`.
pub open spec fn duration_of_jm(j: JsonModel) -> Option<DurationModel> {
    match j {
        JsonModel::Obj(fs) => {
            let secs = unsigned_field(fs, "secs"@);
            let nanos = unsigned_field(fs, "nanos"@);
            let human = jm_lookup(fs, "human"@);
            match (secs, nanos, human) {
                (Some(s), Some(n), Some(JsonModel::Str(h))) => Some(
                    DurationModel { secs: s, nanos: n, human: h },
                ),
                _ => None,
            }
        },
        _ => None,
    }
}

/// How an object's members read as a `Stats`.
pub open spec fn stats_of_jm(j: JsonModel) -> Option<StatsModel> {
    match j {
        JsonModel::Obj(fs) => {
            let elapsed = match jm_lookup(fs, "elapsed"@) {
                Some(v) => duration_of_jm(v),
                None => None,
            };
            match (
                elapsed,
                signed_field(fs, "searches"@),
                unsigned_field(fs, "searches_with_match"@),
                unsigned_field(fs, "bytes_searched"@),
                unsigned_field(fs, "bytes_printed"@),
                unsigned_field(fs, "matched_lines"@),
                unsigned_field(fs, "matches"@),
            ) {
                (Some(e), Some(s), Some(swm), Some(bs), Some(bp), Some(ml), Some(m)) => Some(
                    StatsModel {
                        elapsed: e,
                        searches: s,
                        searches_with_match: swm,
                        bytes_searched: bs,
                        bytes_printed: bp,
                        matched_lines: ml,
                        matches: m,
                    },
                ),
                _ => None,
            }
        },
        _ => None,
    }
}

/// How a JSON value reads as a `Submatch`. The wire name of the matched
/// text is `match`.
pub open spec fn submatch_of_jm(j: JsonModel) -> Option<SubmatchModel> {
    match j {
        JsonModel::Obj(fs) => match (
            data_field(fs, "match"@),
            unsigned_field(fs, "start"@),
            unsigned_field(fs, "end"@),
        ) {
            (Some(m), Some(s), Some(e)) => Some(SubmatchModel { matched: m, start: s, end: e }),
            _ => None,
        },
        _ => None,
    }
}

/// How an array's elements read as a submatch sequence: every element
/// must read as a submatch, in order.
pub open spec fn submatches_of_jm(es: Seq<JsonModel>) -> Option<Seq<SubmatchModel>>
    decreases es.len(),
{
    if es.len() == 0 {
        Some(Seq::empty())
    } else {
        match (submatch_of_jm(es[0]), submatches_of_jm(es.drop_first())) {
            (Some(m), Some(rest)) => Some(seq![m] + rest),
            _ => None,
        }
    }
}

/// The `begin` payload: one mandatory `path` member.
pub open spec fn begin_of_jm(fs: Seq<(Seq<char>, JsonModel)>) -> Option<EventModel> {
    match data_field(fs, "path"@) {
        Some(p) => Some(EventModel::Begin { path: p }),
        None => None,
    }
}

/// The `end` payload: mandatory `path` and `stats`, optional
/// `binary_offset`.
pub open spec fn end_of_jm(fs: Seq<(Seq<char>, JsonModel)>) -> Option<EventModel> {
    let stats = match jm_lookup(fs, "stats"@) {
        Some(v) => stats_of_jm(v),
        None => None,
    };
    match (data_field(fs, "path"@), opt_signed_field(fs, "binary_offset"@), stats) {
        (Some(p), Some(b), Some(s)) => Some(
            EventModel::End { path: p, binary_offset: b, stats: s },
        ),
        _ => None,
    }
}

/// The shared `match`/`context` payload: mandatory `path`, `lines`,
/// `absolute_offset` and `submatches`, optional `line_number`. A missing
/// `submatches` member is a mismatch; an empty array is not.
pub open spec fn line_of_jm(fs: Seq<(Seq<char>, JsonModel)>, is_match: bool) -> Option<EventModel> {
    let subs = match jm_lookup(fs, "submatches"@) {
        Some(JsonModel::Arr(es)) => submatches_of_jm(es),
        _ => None,
    };
    match (
        data_field(fs, "path"@),
        data_field(fs, "lines"@),
        opt_unsigned_field(fs, "line_number"@),
        signed_field(fs, "absolute_offset"@),
        subs,
    ) {
        (Some(p), Some(l), Some(ln), Some(ao), Some(sm)) => Some(
            if is_match {
                EventModel::Match {
                    path: p,
                    lines: l,
                    line_number: ln,
                    absolute_offset: ao,
                    submatches: sm,
                }
            } else {
                EventModel::Context {
                    path: p,
                    lines: l,
                    line_number: ln,
                    absolute_offset: ao,
                    submatches: sm,
                }
            },
        ),
        _ => None,
    }
}

/// How a JSON value reads as an event: the envelope must be an object
/// whose `type` member is one of the four tags and whose `data` member is
/// an object of the matching shape. Any other tag is a mismatch, never a
/// default.
pub open spec fn event_of_jm(j: JsonModel) -> Option<EventModel> {
    match j {
        JsonModel::Obj(fs) => match (jm_lookup(fs, "type"@), jm_lookup(fs, "data"@)) {
            (Some(JsonModel::Str(tag)), Some(JsonModel::Obj(dfs))) => if tag == "begin"@ {
                begin_of_jm(dfs)
            } else if tag == "end"@ {
                end_of_jm(dfs)
            } else if tag == "match"@ {
                line_of_jm(dfs, true)
            } else if tag == "context"@ {
                line_of_jm(dfs, false)
            } else {
                None
            },
            _ => None,
        },
        _ => None,
    }
}

// ---------------------------------------------------------------------
// Encoding, in specification: the canonical JSON value of an event.
// Optional members are omitted when not present, never written as null.
// ---------------------------------------------------------------------

pub open spec fn duration_to_jm(d: DurationModel) -> JsonModel {
    JsonModel::Obj(
        seq![
            ("secs"@, JsonModel::Int(d.secs)),
            ("nanos"@, JsonModel::Int(d.nanos)),
            ("human"@, JsonModel::Str(d.human)),
        ],
    )
}

pub open spec fn stats_to_jm(s: StatsModel) -> JsonModel {
    JsonModel::Obj(
        seq![
            ("elapsed"@, duration_to_jm(s.elapsed)),
            ("searches"@, JsonModel::Int(s.searches)),
            ("searches_with_match"@, JsonModel::Int(s.searches_with_match)),
            ("bytes_searched"@, JsonModel::Int(s.bytes_searched)),
            ("bytes_printed"@, JsonModel::Int(s.bytes_printed)),
            ("matched_lines"@, JsonModel::Int(s.matched_lines)),
            ("matches"@, JsonModel::Int(s.matches)),
        ],
    )
}

pub open spec fn submatch_to_jm(m: SubmatchModel) -> JsonModel {
    JsonModel::Obj(
        seq![
            ("match"@, data_to_jm(m.matched)),
            ("start"@, JsonModel::Int(m.start)),
            ("end"@, JsonModel::Int(m.end)),
        ],
    )
}

pub open spec fn submatches_to_jm(s: Seq<SubmatchModel>) -> Seq<JsonModel> {
    Seq::new(s.len(), |i: int| submatch_to_jm(s[i]))
}

/// The `data` member of an event's envelope.
pub open spec fn event_data_to_jm(e: EventModel) -> Seq<(Seq<char>, JsonModel)> {
    match e {
        EventModel::Begin { path } => seq![("path"@, data_to_jm(path))],
        EventModel::End { path, binary_offset, stats } => match binary_offset {
            Some(n) => seq![
                ("path"@, data_to_jm(path)),
                ("binary_offset"@, JsonModel::Int(n)),
                ("stats"@, stats_to_jm(stats)),
            ],
            None => seq![("path"@, data_to_jm(path)), ("stats"@, stats_to_jm(stats))],
        },
        EventModel::Match { path, lines, line_number, absolute_offset, submatches }
        | EventModel::Context { path, lines, line_number, absolute_offset, submatches } => {
            let head = seq![("path"@, data_to_jm(path)), ("lines"@, data_to_jm(lines))];
            let mid = match line_number {
                Some(n) => seq![("line_number"@, JsonModel::Int(n))],
                None => Seq::<(Seq<char>, JsonModel)>::empty(),
            };
            let tail = seq![
                ("absolute_offset"@, JsonModel::Int(absolute_offset)),
                ("submatches"@, JsonModel::Arr(submatches_to_jm(submatches))),
            ];
            head + mid + tail
        },
    }
}

/// The wire tag of an event.
pub open spec fn event_tag(e: EventModel) -> Seq<char> {
    match e {
        EventModel::Begin { .. } => "begin"@,
        EventModel::End { .. } => "end"@,
        EventModel::Match { .. } => "match"@,
        EventModel::Context { .. } => "context"@,
    }
}

/// How an event encodes as a JSON value: the tagged envelope around the
/// variant's members, in the producer's canonical order.
pub open spec fn event_to_jm(e: EventModel) -> JsonModel {
    JsonModel::Obj(
        seq![
            ("type"@, JsonModel::Str(event_tag(e))),
            ("data"@, JsonModel::Obj(event_data_to_jm(e))),
        ],
    )
}

// ---------------------------------------------------------------------
// The round-trip law: decoding inverts encoding on every well-formed
// value. Well-formedness asks only what the executable field types
// already guarantee (`lemma_view_wf`).
// ---------------------------------------------------------------------

/// The wire names that can stand next to each other in one object are
/// pairwise distinct, so each lookup finds its own member.
proof fn lemma_wire_names_distinct()
    ensures
        "secs"@ != "nanos"@,
        "secs"@ != "human"@,
        "nanos"@ != "human"@,
        "elapsed"@ != "searches"@,
        "elapsed"@ != "searches_with_match"@,
        "elapsed"@ != "bytes_searched"@,
        "elapsed"@ != "bytes_printed"@,
        "elapsed"@ != "matched_lines"@,
        "elapsed"@ != "matches"@,
        "searches"@ != "searches_with_match"@,
        "searches"@ != "bytes_searched"@,
        "searches"@ != "bytes_printed"@,
        "searches"@ != "matched_lines"@,
        "searches"@ != "matches"@,
        "searches_with_match"@ != "bytes_searched"@,
        "searches_with_match"@ != "bytes_printed"@,
        "searches_with_match"@ != "matched_lines"@,
        "searches_with_match"@ != "matches"@,
        "bytes_searched"@ != "bytes_printed"@,
        "bytes_searched"@ != "matched_lines"@,
        "bytes_searched"@ != "matches"@,
        "bytes_printed"@ != "matched_lines"@,
        "bytes_printed"@ != "matches"@,
        "matched_lines"@ != "matches"@,
        "match"@ != "start"@,
        "match"@ != "end"@,
        "start"@ != "end"@,
        "type"@ != "data"@,
        "path"@ != "binary_offset"@,
        "path"@ != "stats"@,
        "binary_offset"@ != "stats"@,
        "path"@ != "lines"@,
        "path"@ != "line_number"@,
        "path"@ != "absolute_offset"@,
        "path"@ != "submatches"@,
        "lines"@ != "line_number"@,
        "lines"@ != "absolute_offset"@,
        "lines"@ != "submatches"@,
        "line_number"@ != "absolute_offset"@,
        "line_number"@ != "submatches"@,
        "absolute_offset"@ != "submatches"@,
        "begin"@ != "end"@,
        "begin"@ != "match"@,
        "begin"@ != "context"@,
        "end"@ != "match"@,
        "end"@ != "context"@,
        "match"@ != "context"@,
{
    reveal_strlit("secs");
    reveal_strlit("nanos");
    reveal_strlit("human");
    reveal_strlit("elapsed");
    reveal_strlit("searches");
    reveal_strlit("searches_with_match");
    reveal_strlit("bytes_searched");
    reveal_strlit("bytes_printed");
    reveal_strlit("matched_lines");
    reveal_strlit("matches");
    reveal_strlit("match");
    reveal_strlit("start");
    reveal_strlit("end");
    reveal_strlit("type");
    reveal_strlit("data");
    reveal_strlit("path");
    reveal_strlit("lines");
    reveal_strlit("line_number");
    reveal_strlit("absolute_offset");
    reveal_strlit("submatches");
    reveal_strlit("binary_offset");
    reveal_strlit("stats");
    reveal_strlit("begin");
    reveal_strlit("context");
    assert("secs"@.len() == 4);
    assert("nanos"@.len() == 5);
    assert("human"@.len() == 5);
    assert("elapsed"@.len() == 7);
    assert("searches"@.len() == 8);
    assert("searches_with_match"@.len() == 19);
    assert("bytes_searched"@.len() == 14);
    assert("bytes_printed"@.len() == 13);
    assert("matched_lines"@.len() == 13);
    assert("matches"@.len() == 7);
    assert("match"@.len() == 5);
    assert("start"@.len() == 5);
    assert("end"@.len() == 3);
    assert("type"@.len() == 4);
    assert("data"@.len() == 4);
    assert("path"@.len() == 4);
    assert("lines"@.len() == 5);
    assert("line_number"@.len() == 11);
    assert("absolute_offset"@.len() == 15);
    assert("submatches"@.len() == 10);
    assert("binary_offset"@.len() == 13);
    assert("stats"@.len() == 5);
    assert("begin"@.len() == 5);
    assert("context"@.len() == 7);
    assert("nanos"@[0] == 'n' && "human"@[0] == 'h');
    assert("elapsed"@[0] == 'e' && "matches"@[0] == 'm');
    assert("bytes_printed"@[0] == 'b' && "matched_lines"@[0] == 'm');
    assert("match"@[0] == 'm' && "start"@[0] == 's');
    assert("type"@[0] == 't' && "data"@[0] == 'd');
    assert("lines"@[0] == 'l' && "stats"@[0] == 's');
    assert("begin"@[0] == 'b');
}

pub proof fn lemma_duration_round_trip(d: DurationModel)
    requires
        wf_duration(d),
    ensures
        duration_of_jm(duration_to_jm(d)) == Some(d),
{
    lemma_wire_names_distinct();
    let fs = duration_to_jm(d)->Obj_0;
    assert(fs[0] == ("secs"@, JsonModel::Int(d.secs)));
    assert(fs[1] == ("nanos"@, JsonModel::Int(d.nanos)));
    assert(fs[2] == ("human"@, JsonModel::Str(d.human)));
    crate::json::lemma_lookup_at(fs, 0);
    crate::json::lemma_lookup_at(fs, 1);
    crate::json::lemma_lookup_at(fs, 2);
}

pub proof fn lemma_stats_round_trip(s: StatsModel)
    requires
        wf_stats(s),
    ensures
        stats_of_jm(stats_to_jm(s)) == Some(s),
{
    lemma_wire_names_distinct();
    let fs = stats_to_jm(s)->Obj_0;
    assert(fs[0] == ("elapsed"@, duration_to_jm(s.elapsed)));
    assert(fs[1] == ("searches"@, JsonModel::Int(s.searches)));
    assert(fs[2] == ("searches_with_match"@, JsonModel::Int(s.searches_with_match)));
    assert(fs[3] == ("bytes_searched"@, JsonModel::Int(s.bytes_searched)));
    assert(fs[4] == ("bytes_printed"@, JsonModel::Int(s.bytes_printed)));
    assert(fs[5] == ("matched_lines"@, JsonModel::Int(s.matched_lines)));
    assert(fs[6] == ("matches"@, JsonModel::Int(s.matches)));
    crate::json::lemma_lookup_at(fs, 0);
    crate::json::lemma_lookup_at(fs, 1);
    crate::json::lemma_lookup_at(fs, 2);
    crate::json::lemma_lookup_at(fs, 3);
    crate::json::lemma_lookup_at(fs, 4);
    crate::json::lemma_lookup_at(fs, 5);
    crate::json::lemma_lookup_at(fs, 6);
    lemma_duration_round_trip(s.elapsed);
}

pub proof fn lemma_submatch_round_trip(m: SubmatchModel)
    requires
        wf_submatch(m),
    ensures
        submatch_of_jm(submatch_to_jm(m)) == Some(m),
{
    lemma_wire_names_distinct();
    let fs = submatch_to_jm(m)->Obj_0;
    assert(fs[0] == ("match"@, data_to_jm(m.matched)));
    assert(fs[1] == ("start"@, JsonModel::Int(m.start)));
    assert(fs[2] == ("end"@, JsonModel::Int(m.end)));
    crate::json::lemma_lookup_at(fs, 0);
    crate::json::lemma_lookup_at(fs, 1);
    crate::json::lemma_lookup_at(fs, 2);
    crate::data::lemma_data_round_trip(m.matched);
}

pub proof fn lemma_submatches_round_trip(s: Seq<SubmatchModel>)
    requires
        forall|i: int| 0 <= i < s.len() ==> wf_submatch(#[trigger] s[i]),
    ensures
        submatches_of_jm(submatches_to_jm(s)) == Some(s),
    decreases s.len(),
{
    let js = submatches_to_jm(s);
    if s.len() == 0 {
        assert(s =~= Seq::<SubmatchModel>::empty());
    } else {
        assert(js[0] == submatch_to_jm(s[0]));
        lemma_submatch_round_trip(s[0]);
        assert(js.drop_first() =~= submatches_to_jm(s.drop_first()));
        assert forall|i: int| 0 <= i < s.drop_first().len() implies wf_submatch(
            #[trigger] s.drop_first()[i],
        ) by {
            assert(s.drop_first()[i] == s[i + 1]);
        }
        lemma_submatches_round_trip(s.drop_first());
        assert(seq![s[0]] + s.drop_first() =~= s);
    }
}

/// A tag outside the four documented ones never decodes: there is no
/// default variant.
pub proof fn lemma_unknown_tag(fs: Seq<(Seq<char>, JsonModel)>, tag: Seq<char>)
    requires
        jm_lookup(fs, "type"@) == Some(JsonModel::Str(tag)),
        tag != "begin"@,
        tag != "end"@,
        tag != "match"@,
        tag != "context"@,
    ensures
        event_of_jm(JsonModel::Obj(fs)) is None,
{
}

/// An optional member that is absent and one that is explicitly `null`
/// read the same: not present.
pub proof fn lemma_null_means_absent(fs: Seq<(Seq<char>, JsonModel)>, k: Seq<char>)
    requires
        jm_lookup(fs, k) is None || jm_lookup(fs, k) == Some(JsonModel::Null),
    ensures
        opt_signed_field(fs, k) == Some(None::<int>),
        opt_unsigned_field(fs, k) == Some(None::<int>),
{
}

/// Decoding inverts encoding on every well-formed event.
pub proof fn lemma_event_round_trip(e: EventModel)
    requires
        wf_event(e),
    ensures
        event_of_jm(event_to_jm(e)) == Some(e),
{
    lemma_wire_names_distinct();
    let fs = event_to_jm(e)->Obj_0;
    assert(fs[0] == ("type"@, JsonModel::Str(event_tag(e))));
    assert(fs[1] == ("data"@, JsonModel::Obj(event_data_to_jm(e))));
    crate::json::lemma_lookup_at(fs, 0);
    crate::json::lemma_lookup_at(fs, 1);
    let dfs = event_data_to_jm(e);
    match e {
        EventModel::Begin { path } => {
            assert(dfs[0] == ("path"@, data_to_jm(path)));
            crate::json::lemma_lookup_at(dfs, 0);
            crate::data::lemma_data_round_trip(path);
        },
        EventModel::End { path, binary_offset, stats } => {
            match binary_offset {
                Some(n) => {
                    assert(dfs =~= seq![
                        ("path"@, data_to_jm(path)),
                        ("binary_offset"@, JsonModel::Int(n)),
                        ("stats"@, stats_to_jm(stats)),
                    ]);
                    crate::json::lemma_lookup_at(dfs, 0);
                    crate::json::lemma_lookup_at(dfs, 1);
                    crate::json::lemma_lookup_at(dfs, 2);
                },
                None => {
                    assert(dfs =~= seq![
                        ("path"@, data_to_jm(path)),
                        ("stats"@, stats_to_jm(stats)),
                    ]);
                    crate::json::lemma_lookup_at(dfs, 0);
                    crate::json::lemma_lookup_at(dfs, 1);
                    crate::json::lemma_lookup_absent(dfs, "binary_offset"@);
                },
            }
            crate::data::lemma_data_round_trip(path);
            lemma_stats_round_trip(stats);
        },
        EventModel::Match { path, lines, line_number, absolute_offset, submatches }
        | EventModel::Context { path, lines, line_number, absolute_offset, submatches } => {
            match line_number {
                Some(n) => {
                    assert(dfs =~= seq![
                        ("path"@, data_to_jm(path)),
                        ("lines"@, data_to_jm(lines)),
                        ("line_number"@, JsonModel::Int(n)),
                        ("absolute_offset"@, JsonModel::Int(absolute_offset)),
                        ("submatches"@, JsonModel::Arr(submatches_to_jm(submatches))),
                    ]);
                    crate::json::lemma_lookup_at(dfs, 0);
                    crate::json::lemma_lookup_at(dfs, 1);
                    crate::json::lemma_lookup_at(dfs, 2);
                    crate::json::lemma_lookup_at(dfs, 3);
                    crate::json::lemma_lookup_at(dfs, 4);
                },
                None => {
                    assert(dfs =~= seq![
                        ("path"@, data_to_jm(path)),
                        ("lines"@, data_to_jm(lines)),
                        ("absolute_offset"@, JsonModel::Int(absolute_offset)),
                        ("submatches"@, JsonModel::Arr(submatches_to_jm(submatches))),
                    ]);
                    crate::json::lemma_lookup_at(dfs, 0);
                    crate::json::lemma_lookup_at(dfs, 1);
                    crate::json::lemma_lookup_at(dfs, 2);
                    crate::json::lemma_lookup_at(dfs, 3);
                    crate::json::lemma_lookup_absent(dfs, "line_number"@);
                },
            }
            crate::data::lemma_data_round_trip(path);
            crate::data::lemma_data_round_trip(lines);
            assert(forall|i: int| 0 <= i < submatches.len() ==> wf_submatch(
                #[trigger] submatches[i],
            ));
            lemma_submatches_round_trip(submatches);
        },
    }
}

/// The round-trip law on executable events: every `Type` value survives
/// encode-then-decode.
pub proof fn lemma_type_round_trip(t: &Type)
    ensures
        event_of_jm(event_to_jm(t@)) == Some(t@),
{
    lemma_view_wf(t);
    lemma_event_round_trip(t@);
}

// ---------------------------------------------------------------------
// Decoding, executable.
// ---------------------------------------------------------------------

/// The mismatch error for one member.
fn mismatch(key: &str, what: &str) -> (r: DecodeError)
    ensures
        r is SchemaMismatch,
{
    DecodeError::SchemaMismatch { field: String::from_str(key), found: String::from_str(what) }
}

fn get_unsigned(fs: &Vec<(Vec<char>, Json)>, key: &str) -> (r: Result<u64, DecodeError>)
    ensures
        match r {
            Ok(n) => unsigned_field(obj_model(fs@), key@) == Some(n as int),
            Err(e) => unsigned_field(obj_model(fs@), key@) is None && e is SchemaMismatch,
        },
{
    match crate::json::lookup(fs, key) {
        Some(Json::Int(n)) => if *n >= 0 && *n <= u64::MAX as i128 {
            Ok(*n as u64)
        } else {
            Err(mismatch(key, "integer out of unsigned range"))
        },
        _ => Err(mismatch(key, "no unsigned integer")),
    }
}

fn get_signed(fs: &Vec<(Vec<char>, Json)>, key: &str) -> (r: Result<i64, DecodeError>)
    ensures
        match r {
            Ok(n) => signed_field(obj_model(fs@), key@) == Some(n as int),
            Err(e) => signed_field(obj_model(fs@), key@) is None && e is SchemaMismatch,
        },
{
    match crate::json::lookup(fs, key) {
        Some(Json::Int(n)) => if i64::MIN as i128 <= *n && *n <= i64::MAX as i128 {
            Ok(*n as i64)
        } else {
            Err(mismatch(key, "integer out of signed range"))
        },
        _ => Err(mismatch(key, "no integer")),
    }
}

fn get_opt_signed(fs: &Vec<(Vec<char>, Json)>, key: &str) -> (r: Result<Option<i64>, DecodeError>)
    ensures
        match r {
            Ok(o) => opt_signed_field(obj_model(fs@), key@) == Some(opt_model(o)),
            Err(e) => opt_signed_field(obj_model(fs@), key@) is None && e is SchemaMismatch,
        },
{
    match crate::json::lookup(fs, key) {
        None => Ok(None),
        Some(Json::Null) => Ok(None),
        Some(Json::Int(n)) => if i64::MIN as i128 <= *n && *n <= i64::MAX as i128 {
            Ok(Some(*n as i64))
        } else {
            Err(mismatch(key, "integer out of signed range"))
        },
        Some(_) => Err(mismatch(key, "neither integer nor null")),
    }
}

fn get_opt_unsigned(fs: &Vec<(Vec<char>, Json)>, key: &str) -> (r: Result<
    Option<u64>,
    DecodeError,
>)
    ensures
        match r {
            Ok(o) => opt_unsigned_field(obj_model(fs@), key@) == Some(opt_model_u(o)),
            Err(e) => opt_unsigned_field(obj_model(fs@), key@) is None && e is SchemaMismatch,
        },
{
    match crate::json::lookup(fs, key) {
        None => Ok(None),
        Some(Json::Null) => Ok(None),
        Some(Json::Int(n)) => if *n >= 0 && *n <= u64::MAX as i128 {
            Ok(Some(*n as u64))
        } else {
            Err(mismatch(key, "integer out of unsigned range"))
        },
        Some(_) => Err(mismatch(key, "neither unsigned integer nor null")),
    }
}

fn get_data(fs: &Vec<(Vec<char>, Json)>, key: &str) -> (r: Result<ArbitraryData, DecodeError>)
    ensures
        match r {
            Ok(d) => data_field(obj_model(fs@), key@) == Some(d@),
            Err(e) => data_field(obj_model(fs@), key@) is None && e is SchemaMismatch,
        },
{
    match crate::json::lookup(fs, key) {
        Some(v) => match ArbitraryData::decode(v) {
            Ok(d) => Ok(d),
            Err(e) => Err(e),
        },
        None => Err(mismatch(key, "missing")),
    }
}

fn get_string(fs: &Vec<(Vec<char>, Json)>, key: &str) -> (r: Result<String, DecodeError>)
    ensures
        match r {
            Ok(s) => jm_lookup(obj_model(fs@), key@) == Some(JsonModel::Str(s@)),
            Err(e) => !(jm_lookup(obj_model(fs@), key@) matches Some(JsonModel::Str(_)))
                && e is SchemaMismatch,
        },
{
    match crate::json::lookup(fs, key) {
        Some(Json::Str(s)) => Ok(chars_to_string(s)),
        _ => Err(mismatch(key, "no string")),
    }
}

/// Reads a `Duration` out of one JSON value, exactly as `duration_of_jm`
/// describes.
pub fn decode_duration(j: &Json) -> (r: Result<Duration, DecodeError>)
    ensures
        match r {
            Ok(d) => duration_of_jm(j@) == Some(d@),
            Err(e) => duration_of_jm(j@) is None && e is SchemaMismatch,
        },
{
    match j {
        Json::Obj(fs) => {
            let secs = match get_unsigned(fs, "secs") {
                Ok(v) => v,
                Err(e) => { return Err(e); },
            };
            let nanos = match get_unsigned(fs, "nanos") {
                Ok(v) => v,
                Err(e) => { return Err(e); },
            };
            let human = match get_string(fs, "human") {
                Ok(v) => v,
                Err(e) => { return Err(e); },
            };
            Ok(Duration { secs, nanos, human })
        },
        _ => Err(mismatch("elapsed", "no object")),
    }
}

/// Reads a `Stats` out of one JSON value, exactly as `stats_of_jm`
/// describes.
pub fn decode_stats(j: &Json) -> (r: Result<Stats, DecodeError>)
    ensures
        match r {
            Ok(s) => stats_of_jm(j@) == Some(s@),
            Err(e) => stats_of_jm(j@) is None && e is SchemaMismatch,
        },
{
    match j {
        Json::Obj(fs) => {
            let elapsed = match crate::json::lookup(fs, "elapsed") {
                Some(v) => match decode_duration(v) {
                    Ok(d) => d,
                    Err(e) => { return Err(e); },
                },
                None => { return Err(mismatch("elapsed", "missing")); },
            };
            let searches = match get_signed(fs, "searches") {
                Ok(v) => v,
                Err(e) => { return Err(e); },
            };
            let searches_with_match = match get_unsigned(fs, "searches_with_match") {
                Ok(v) => v,
                Err(e) => { return Err(e); },
            };
            let bytes_searched = match get_unsigned(fs, "bytes_searched") {
                Ok(v) => v,
                Err(e) => { return Err(e); },
            };
            let bytes_printed = match get_unsigned(fs, "bytes_printed") {
                Ok(v) => v,
                Err(e) => { return Err(e); },
            };
            let matched_lines = match get_unsigned(fs, "matched_lines") {
                Ok(v) => v,
                Err(e) => { return Err(e); },
            };
            let matches = match get_unsigned(fs, "matches") {
                Ok(v) => v,
                Err(e) => { return Err(e); },
            };
            Ok(Stats {
                elapsed,
                searches,
                searches_with_match,
                bytes_searched,
                bytes_printed,
                matched_lines,
                matches,
            })
        },
        _ => Err(mismatch("stats", "no object")),
    }
}

/// Reads a `Submatch` out of one JSON value, exactly as `submatch_of_jm`
/// describes.
pub fn decode_submatch(j: &Json) -> (r: Result<Submatch, DecodeError>)
    ensures
        match r {
            Ok(m) => submatch_of_jm(j@) == Some(m@),
            Err(e) => submatch_of_jm(j@) is None && e is SchemaMismatch,
        },
{
    match j {
        Json::Obj(fs) => {
            let matched = match get_data(fs, "match") {
                Ok(v) => v,
                Err(e) => { return Err(e); },
            };
            let start = match get_unsigned(fs, "start") {
                Ok(v) => v,
                Err(e) => { return Err(e); },
            };
            let end = match get_unsigned(fs, "end") {
                Ok(v) => v,
                Err(e) => { return Err(e); },
            };
            Ok(Submatch { matched, start, end })
        },
        _ => Err(mismatch("submatches", "no object element")),
    }
}

fn decode_submatches(es: &Vec<Json>) -> (r: Result<Vec<Submatch>, DecodeError>)
    ensures
        match r {
            Ok(v) => submatches_of_jm(arr_model(es@)) == Some(submatches_model(v@)),
            Err(e) => submatches_of_jm(arr_model(es@)) is None && e is SchemaMismatch,
        },
{
    let ghost m = arr_model(es@);
    let mut out: Vec<Submatch> = Vec::new();
    let mut i: usize = 0;
    proof {
        assert(m.skip(0) =~= m);
    }
    while i < es.len()
        invariant
            i <= es@.len(),
            m == arr_model(es@),
            m.len() == es@.len(),
            forall|j: int| 0 <= j < m.len() ==> m[j] == es@[j]@,
            submatches_model(out@).len() == i as int,
            forall|j: int| 0 <= j < i ==> submatch_of_jm(m[j]) == Some(
                #[trigger] submatches_model(out@)[j],
            ),
            match submatches_of_jm(m.skip(i as int)) {
                Some(rest) => submatches_of_jm(m) == Some(submatches_model(out@) + rest),
                None => submatches_of_jm(m) is None,
            },
        decreases es@.len() - i,
    {
        proof {
            assert(m.skip(i as int)[0] == m[i as int]);
            assert(m.skip(i as int).drop_first() =~= m.skip(i + 1 as int));
        }
        match decode_submatch(&es[i]) {
            Ok(s) => {
                let ghost old_out = out@;
                out.push(s);
                proof {
                    assert(submatches_model(out@) =~= submatches_model(old_out) + seq![s@]);
                    if submatches_of_jm(m.skip(i + 1 as int)) is Some {
                        let rest = submatches_of_jm(m.skip(i + 1 as int))->Some_0;
                        assert(submatches_of_jm(m.skip(i as int)) == Some(seq![s@] + rest));
                        assert(submatches_model(old_out) + (seq![s@] + rest) =~= (submatches_model(
                            old_out,
                        ) + seq![s@]) + rest);
                    }
                }
            },
            Err(e) => {
                return Err(e);
            },
        }
        i = i + 1;
    }
    proof {
        assert(m.skip(i as int).len() == 0);
        assert(submatches_model(out@) + Seq::<SubmatchModel>::empty() =~= submatches_model(out@));
    }
    Ok(out)
}

fn decode_begin(dfs: &Vec<(Vec<char>, Json)>) -> (r: Result<Type, DecodeError>)
    ensures
        match r {
            Ok(e) => begin_of_jm(obj_model(dfs@)) == Some(e@),
            Err(err) => begin_of_jm(obj_model(dfs@)) is None && err is SchemaMismatch,
        },
{
    match get_data(dfs, "path") {
        Ok(path) => Ok(Type::Begin { path }),
        Err(e) => Err(e),
    }
}

fn decode_end(dfs: &Vec<(Vec<char>, Json)>) -> (r: Result<Type, DecodeError>)
    ensures
        match r {
            Ok(e) => end_of_jm(obj_model(dfs@)) == Some(e@),
            Err(err) => end_of_jm(obj_model(dfs@)) is None && err is SchemaMismatch,
        },
{
    let path = match get_data(dfs, "path") {
        Ok(v) => v,
        Err(e) => { return Err(e); },
    };
    let binary_offset = match get_opt_signed(dfs, "binary_offset") {
        Ok(v) => v,
        Err(e) => { return Err(e); },
    };
    let stats = match crate::json::lookup(dfs, "stats") {
        Some(v) => match decode_stats(v) {
            Ok(s) => s,
            Err(e) => { return Err(e); },
        },
        None => { return Err(mismatch("stats", "missing")); },
    };
    Ok(Type::End { path, binary_offset, stats })
}

fn decode_line_payload(dfs: &Vec<(Vec<char>, Json)>, is_match: bool) -> (r: Result<
    Type,
    DecodeError,
>)
    ensures
        match r {
            Ok(e) => line_of_jm(obj_model(dfs@), is_match) == Some(e@),
            Err(err) => line_of_jm(obj_model(dfs@), is_match) is None && err is SchemaMismatch,
        },
{
    let path = match get_data(dfs, "path") {
        Ok(v) => v,
        Err(e) => { return Err(e); },
    };
    let lines = match get_data(dfs, "lines") {
        Ok(v) => v,
        Err(e) => { return Err(e); },
    };
    let line_number = match get_opt_unsigned(dfs, "line_number") {
        Ok(v) => v,
        Err(e) => { return Err(e); },
    };
    let absolute_offset = match get_signed(dfs, "absolute_offset") {
        Ok(v) => v,
        Err(e) => { return Err(e); },
    };
    let submatches = match crate::json::lookup(dfs, "submatches") {
        Some(Json::Arr(es)) => match decode_submatches(es) {
            Ok(v) => v,
            Err(e) => { return Err(e); },
        },
        _ => { return Err(mismatch("submatches", "no array")); },
    };
    if is_match {
        Ok(Type::Match { path, lines, line_number, absolute_offset, submatches })
    } else {
        Ok(Type::Context { path, lines, line_number, absolute_offset, submatches })
    }
}

/// Reads an event out of one JSON value, exactly as `event_of_jm`
/// describes: success if and only if the value has one of the four
/// documented shapes.
pub fn from_json(j: &Json) -> (r: Result<Type, DecodeError>)
    ensures
        match r {
            Ok(e) => event_of_jm(j@) == Some(e@),
            Err(err) => event_of_jm(j@) is None && err is SchemaMismatch,
        },
{
    match j {
        Json::Obj(fs) => {
            let tag = match crate::json::lookup(fs, "type") {
                Some(Json::Str(t)) => t,
                _ => { return Err(mismatch("type", "no string tag")); },
            };
            let dfs = match crate::json::lookup(fs, "data") {
                Some(Json::Obj(d)) => d,
                _ => { return Err(mismatch("data", "no object")); },
            };
            if crate::json::chars_eq_str(tag, "begin") {
                decode_begin(dfs)
            } else if crate::json::chars_eq_str(tag, "end") {
                decode_end(dfs)
            } else if crate::json::chars_eq_str(tag, "match") {
                decode_line_payload(dfs, true)
            } else if crate::json::chars_eq_str(tag, "context") {
                decode_line_payload(dfs, false)
            } else {
                Err(DecodeError::SchemaMismatch {
                    field: String::from_str("type"),
                    found: chars_to_string(tag),
                })
            }
        },
        _ => Err(mismatch("type", "no object")),
    }
}

// ---------------------------------------------------------------------
// Encoding, executable.
// ---------------------------------------------------------------------

/// Writes a `Duration` to its JSON value, exactly as `duration_to_jm`
/// describes.
pub fn encode_duration(d: &Duration) -> (r: Json)
    ensures
        r@ == duration_to_jm(d@),
{
    let mut fs: Vec<(Vec<char>, Json)> = Vec::new();
    fs.push((str_chars("secs"), Json::Int(d.secs as i128)));
    fs.push((str_chars("nanos"), Json::Int(d.nanos as i128)));
    fs.push((str_chars("human"), Json::Str(str_chars(d.human.as_str()))));
    proof {
        assert(obj_model(fs@) =~= seq![
            ("secs"@, JsonModel::Int(d.secs as int)),
            ("nanos"@, JsonModel::Int(d.nanos as int)),
            ("human"@, JsonModel::Str(d.human@)),
        ]);
    }
    Json::Obj(fs)
}

/// Writes a `Stats` to its JSON value, exactly as `stats_to_jm`
/// describes.
pub fn encode_stats(s: &Stats) -> (r: Json)
    ensures
        r@ == stats_to_jm(s@),
{
    let mut fs: Vec<(Vec<char>, Json)> = Vec::new();
    fs.push((str_chars("elapsed"), encode_duration(&s.elapsed)));
    fs.push((str_chars("searches"), Json::Int(s.searches as i128)));
    fs.push((str_chars("searches_with_match"), Json::Int(s.searches_with_match as i128)));
    fs.push((str_chars("bytes_searched"), Json::Int(s.bytes_searched as i128)));
    fs.push((str_chars("bytes_printed"), Json::Int(s.bytes_printed as i128)));
    fs.push((str_chars("matched_lines"), Json::Int(s.matched_lines as i128)));
    fs.push((str_chars("matches"), Json::Int(s.matches as i128)));
    proof {
        assert(obj_model(fs@) =~= seq![
            ("elapsed"@, duration_to_jm(s.elapsed@)),
            ("searches"@, JsonModel::Int(s.searches as int)),
            ("searches_with_match"@, JsonModel::Int(s.searches_with_match as int)),
            ("bytes_searched"@, JsonModel::Int(s.bytes_searched as int)),
            ("bytes_printed"@, JsonModel::Int(s.bytes_printed as int)),
            ("matched_lines"@, JsonModel::Int(s.matched_lines as int)),
            ("matches"@, JsonModel::Int(s.matches as int)),
        ]);
    }
    Json::Obj(fs)
}

/// Writes a `Submatch` to its JSON value, exactly as `submatch_to_jm`
/// describes.
pub fn encode_submatch(m: &Submatch) -> (r: Json)
    ensures
        r@ == submatch_to_jm(m@),
{
    let mut fs: Vec<(Vec<char>, Json)> = Vec::new();
    fs.push((str_chars("match"), m.matched.encode()));
    fs.push((str_chars("start"), Json::Int(m.start as i128)));
    fs.push((str_chars("end"), Json::Int(m.end as i128)));
    proof {
        assert(obj_model(fs@) =~= seq![
            ("match"@, data_to_jm(m.matched@)),
            ("start"@, JsonModel::Int(m.start as int)),
            ("end"@, JsonModel::Int(m.end as int)),
        ]);
    }
    Json::Obj(fs)
}

fn encode_submatches(v: &Vec<Submatch>) -> (r: Vec<Json>)
    ensures
        arr_model(r@) == submatches_to_jm(submatches_model(v@)),
{
    let mut out: Vec<Json> = Vec::new();
    let mut i: usize = 0;
    while i < v.len()
        invariant
            i <= v@.len(),
            out@.len() == i as int,
            forall|j: int| 0 <= j < i ==> (#[trigger] out@[j])@ == submatch_to_jm(v@[j]@),
        decreases v@.len() - i,
    {
        out.push(encode_submatch(&v[i]));
        i = i + 1;
    }
    proof {
        assert(arr_model(out@) =~= submatches_to_jm(submatches_model(v@)));
    }
    out
}

/// Wraps a finished `data` object in the tagged envelope.
fn envelope(tag: &str, dfs: Vec<(Vec<char>, Json)>) -> (r: Json)
    ensures
        r@ == JsonModel::Obj(
            seq![
                ("type"@, JsonModel::Str(tag@)),
                ("data"@, JsonModel::Obj(obj_model(dfs@))),
            ],
        ),
{
    let ghost dm = obj_model(dfs@);
    let mut fs: Vec<(Vec<char>, Json)> = Vec::new();
    fs.push((str_chars("type"), Json::Str(str_chars(tag))));
    fs.push((str_chars("data"), Json::Obj(dfs)));
    proof {
        assert(obj_model(fs@) =~= seq![
            ("type"@, JsonModel::Str(tag@)),
            ("data"@, JsonModel::Obj(dm)),
        ]);
    }
    Json::Obj(fs)
}

/// Writes an event to its canonical JSON value, exactly as `event_to_jm`
/// describes: tag and payload separated, members in the producer's
/// order, absent optional members omitted.
pub fn to_json(e: &Type) -> (r: Json)
    ensures
        r@ == event_to_jm(e@),
{
    match e {
        Type::Begin { path } => {
            let mut dfs: Vec<(Vec<char>, Json)> = Vec::new();
            dfs.push((str_chars("path"), path.encode()));
            proof {
                assert(obj_model(dfs@) =~= event_data_to_jm(e@));
            }
            envelope("begin", dfs)
        },
        Type::End { path, binary_offset, stats } => {
            let mut dfs: Vec<(Vec<char>, Json)> = Vec::new();
            dfs.push((str_chars("path"), path.encode()));
            match binary_offset {
                Some(n) => {
                    dfs.push((str_chars("binary_offset"), Json::Int(*n as i128)));
                },
                None => {},
            }
            dfs.push((str_chars("stats"), encode_stats(stats)));
            proof {
                assert(obj_model(dfs@) =~= event_data_to_jm(e@));
            }
            envelope("end", dfs)
        },
        Type::Match { path, lines, line_number, absolute_offset, submatches } => {
            let dfs = line_members(path, lines, line_number, absolute_offset, submatches);
            proof {
                assert(obj_model(dfs@) =~= event_data_to_jm(e@));
            }
            envelope("match", dfs)
        },
        Type::Context { path, lines, line_number, absolute_offset, submatches } => {
            let dfs = line_members(path, lines, line_number, absolute_offset, submatches);
            proof {
                assert(obj_model(dfs@) =~= event_data_to_jm(e@));
            }
            envelope("context", dfs)
        },
    }
}

/// The canonical wire line of an event: the compact serialization of its
/// canonical JSON value, absent optional members omitted.
pub fn encode_line(e: &Type) -> (r: String)
    ensures
        r@ == crate::ser::ser_jm(event_to_jm(e@)),
{
    let j = to_json(e);
    crate::ser::json_to_string(&j)
}

/// Decodes one wire line to its event: the value the line denotes (as
/// `json_of_text` describes) is read as an event (as `event_of_jm`
/// describes). A line that denotes no JSON value comes back as `Syntax`;
/// one whose value has the wrong shape as `SchemaMismatch`; and success
/// comes exactly on the lines whose value reads as an event.
pub fn decode_line(line: &str) -> (r: Result<Type, DecodeError>)
    ensures
        match r {
            Ok(e) => crate::parse::json_of_text(line@) matches Some(jm) && event_of_jm(jm)
                == Some(e@),
            Err(err) => match crate::parse::json_of_text(line@) {
                Some(jm) => event_of_jm(jm) is None && err is SchemaMismatch,
                None => err is Syntax,
            },
        },
{
    match crate::parse::parse_json(line) {
        Ok(j) => match from_json(&j) {
            Ok(e) => Ok(e),
            Err(e) => Err(e),
        },
        Err(e) => Err(e),
    }
}

/// The shared `match`/`context` member list.
fn line_members(
    path: &ArbitraryData,
    lines: &ArbitraryData,
    line_number: &Option<u64>,
    absolute_offset: &i64,
    submatches: &Vec<Submatch>,
) -> (r: Vec<(Vec<char>, Json)>)
    ensures
        obj_model(r@) == {
            let head = seq![("path"@, data_to_jm(path@)), ("lines"@, data_to_jm(lines@))];
            let mid = match opt_model_u(*line_number) {
                Some(n) => seq![("line_number"@, JsonModel::Int(n))],
                None => Seq::<(Seq<char>, JsonModel)>::empty(),
            };
            let tail = seq![
                ("absolute_offset"@, JsonModel::Int(*absolute_offset as int)),
                ("submatches"@, JsonModel::Arr(submatches_to_jm(submatches_model(submatches@)))),
            ];
            head + mid + tail
        },
{
    let mut dfs: Vec<(Vec<char>, Json)> = Vec::new();
    dfs.push((str_chars("path"), path.encode()));
    dfs.push((str_chars("lines"), lines.encode()));
    match line_number {
        Some(n) => {
            dfs.push((str_chars("line_number"), Json::Int(*n as i128)));
        },
        None => {},
    }
    dfs.push((str_chars("absolute_offset"), Json::Int(*absolute_offset as i128)));
    dfs.push((str_chars("submatches"), Json::Arr(encode_submatches(submatches))));
    proof {
        let head = seq![("path"@, data_to_jm(path@)), ("lines"@, data_to_jm(lines@))];
        let mid = match opt_model_u(*line_number) {
            Some(n) => seq![("line_number"@, JsonModel::Int(n))],
            None => Seq::<(Seq<char>, JsonModel)>::empty(),
        };
        let tail = seq![
            ("absolute_offset"@, JsonModel::Int(*absolute_offset as int)),
            ("submatches"@, JsonModel::Arr(submatches_to_jm(submatches_model(submatches@)))),
        ];
        assert(obj_model(dfs@) =~= head + mid + tail);
    }
    dfs
}

} // verus!
