//! Decoder and encoder for the line-oriented JSON event stream that a text
//! search tool emits to report progress and results. Each line is one JSON
//! object holding one of four event shapes; this crate parses such a line
//! into a typed event ([`decode_line`]), and renders a typed event back to
//! its wire form ([`encode_line`]).
//!
//! A line is read in two steps, each pinned exactly by its contract: the
//! text parses to a small JSON value tree ([`parse_json`], proved equal
//! to the grammar `parse::json_of_text`), and the tree reads as an event
//! ([`from_json`], proved equal to `event::event_of_jm`). The schema step
//! is proved to invert encoding on every value
//! (`event::lemma_event_round_trip`), an unknown tag is proved never to
//! decode (`event::lemma_unknown_tag`), and an optional member that is
//! `null` is proved to read as one that is absent
//! (`event::lemma_null_means_absent`).

pub mod data;
pub mod error;
pub mod event;
pub mod ext;
pub mod json;
pub mod parse;
pub mod ser;

pub use data::ArbitraryData;
pub use error::DecodeError;
pub use event::{decode_line, encode_line, from_json, to_json, Duration, Stats, Submatch, Type};
pub use json::Json;
pub use parse::parse_json;
pub use ser::json_to_string;
