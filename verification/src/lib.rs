//! Client-side adapter logic for a blockchain explorer API: classifying
//! tagged response envelopes, resolving a block number from a timestamp,
//! and merging and ordering event-log query results.
//!
//! The transport that obtains the envelopes is not part of this crate; the
//! functions here take the already-deserialized envelopes as plain values
//! and are verified over them.

pub mod fetch;
pub mod model;
pub mod numeric;
pub mod order;
pub mod text;

pub use fetch::{classify_log_response, merge_and_sort, merge_log_responses,
    resolve_block_by_timestamp};
pub use model::{BlockNumberByTimestamp, FetchError, LogEntry, ResponseEnvelope};
pub use numeric::parse_numeric;
pub use order::sort_entries;
