//! Commit-history records: a strict parser for `git log` record text and
//! schema-driven serializers to delimited text, JSON lines and SQL scripts.

pub mod decode;
pub mod diffstat;
pub mod error;
pub mod json;
pub mod laws;
pub mod log;
pub mod record;
pub mod schema;
pub mod serialize;
pub mod text;
pub mod timestamp;
pub mod width;

pub use decode::from_json;
pub use diffstat::{extract_count, Quantity};
pub use error::{ErrorKind, ParseError};
pub use json::{commit_to_json, commits_to_json, json_object, to_json};
pub use laws::{lemma_create_statement_stable, lemma_csv_first_line, lemma_script_begins_with_table, lemma_field_order, lemma_hash_length, lemma_json_keys_follow_schema, lemma_json_round_trip, lemma_no_phrase_zero_counts};
pub use log::parse_log;
pub use record::{parse_chars, trim_chars, Commit};
pub use schema::{Field, FieldType, Schema};
pub use serialize::{commits_to_csv, commits_to_postgres, to_csv, to_postgres};
pub use timestamp::{is_valid_timestamp, Timestamp};
pub use width::Width;
