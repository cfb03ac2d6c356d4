//! Data model: the log entry record, the resolved block-number record, the
//! tagged response envelope of the explorer API, and the error taxonomy.

use vstd::prelude::*;

use crate::numeric::numeric_value_u64;

verus! {

/// One on-chain event occurrence, as the explorer API reports it.
///
/// `block_number` and `log_index` are the ordering keys; a well-formed entry
/// carries them as decimal or hexadecimal strings whose values fit in a
/// `u64` (see [`entry_valid`]).
#[derive(Debug, Clone, PartialEq, Eq)]
pub struct LogEntry {
    pub address: String,
    pub topics: Vec<String>,
    pub data: String,
    pub block_number: String,
    pub block_hash: String,
    pub time_stamp: String,
    pub gas_price: String,
    pub gas_used: String,
    pub log_index: String,
    pub transaction_hash: String,
    pub transaction_index: String,
}

/// The block number that a timestamp resolved to, together with the
/// timestamp that was asked about.
#[derive(Debug, Clone, Copy, PartialEq, Eq, Structural)]
pub struct BlockNumberByTimestamp {
    pub timestamp: u64,
    pub block_number: u64,
}

/// The tagged envelope that wraps every explorer API response:
/// status `"1"` is success, `"0"` failure-or-empty (told apart by the
/// message), anything else unexpected.
#[derive(Debug, Clone)]
pub struct ResponseEnvelope<T> {
    pub status: String,
    pub message: String,
    pub result: T,
}

/// Everything that can go wrong in this module.
#[derive(Debug, Clone)]
pub enum FetchError {
    /// The upstream reported failure status for the timestamp lookup.
    BlockResolutionFailed,
    /// The upstream reported failure status for a log query, and the
    /// failure is not the recognized "no records found" condition.
    LogQueryFailed,
    /// The upstream returned a status outside the known `{"0", "1"}` set;
    /// the payload is that status string.
    UnexpectedStatus(String),
    /// A mandatory numeric field could not be read as a `u64`.
    MalformedNumericField,
}

/// A well-formed entry: both ordering keys are parseable as `u64` values.
pub open spec fn entry_valid(e: LogEntry) -> bool {
    numeric_value_u64(e.block_number@) is Some && numeric_value_u64(e.log_index@) is Some
}

/// The parsed block number of an entry.
pub open spec fn entry_block(e: LogEntry) -> int {
    numeric_value_u64(e.block_number@)->0
}

/// The parsed log index of an entry.
pub open spec fn entry_log_index(e: LogEntry) -> int {
    numeric_value_u64(e.log_index@)->0
}

/// The ordering of entries: ascending block number, ties broken by
/// ascending log index.
pub open spec fn key_le(a: LogEntry, b: LogEntry) -> bool {
    entry_block(a) < entry_block(b) || (entry_block(a) == entry_block(b) && entry_log_index(a)
        <= entry_log_index(b))
}

/// Every entry of a sequence is well-formed.
pub open spec fn all_entries_valid(s: Seq<LogEntry>) -> bool {
    forall|i: int| 0 <= i < s.len() ==> entry_valid(#[trigger] s[i])
}

/// Checks that an entry's ordering keys are parseable.
pub fn check_entry_valid(e: &LogEntry) -> (r: bool)
    ensures
        r == entry_valid(*e),
{
    let block = crate::numeric::parse_numeric(e.block_number.as_str());
    let index = crate::numeric::parse_numeric(e.log_index.as_str());
    block.is_some() && index.is_some()
}

/// Compares two well-formed entries by `(block_number, log_index)`.
pub fn check_key_le(a: &LogEntry, b: &LogEntry) -> (r: bool)
    requires
        entry_valid(*a),
        entry_valid(*b),
    ensures
        r == key_le(*a, *b),
{
    let a_block = crate::numeric::parse_numeric(a.block_number.as_str()).unwrap();
    let b_block = crate::numeric::parse_numeric(b.block_number.as_str()).unwrap();
    if a_block < b_block {
        true
    } else if a_block == b_block {
        let a_index = crate::numeric::parse_numeric(a.log_index.as_str()).unwrap();
        let b_index = crate::numeric::parse_numeric(b.log_index.as_str()).unwrap();
        a_index <= b_index
    } else {
        false
    }
}

} // verus!
