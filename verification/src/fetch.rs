//! Interpretation of explorer API responses: classifying a tagged envelope
//! into entries, empty, or failure; resolving a block number from a
//! timestamp lookup response; and merging the two log query results of a
//! dual-filter fetch into one ordered sequence.

use vstd::prelude::*;

use crate::model::{
    all_entries_valid, check_entry_valid, BlockNumberByTimestamp, FetchError, LogEntry,
    ResponseEnvelope,
};
use crate::numeric::numeric_value_u64;
use crate::order::{entries_sorted, sort_entries, sort_spec};
use crate::text::str_eq;

verus! {

/// The one failure message that means "the filter matched nothing", which
/// is an expected outcome and not an error.
pub open spec fn no_records_message() -> Seq<char> {
    "No records found"@
}

/// How one log query response is read.
pub enum LogClass {
    /// Success, or the recognized empty outcome: these entries contribute
    /// to the merge.
    Entries(Seq<LogEntry>),
    /// Failure status with any other message: a hard failure.
    Hard,
    /// A status outside the known `{"0", "1"}` set.
    Unexpected(Seq<char>),
}

/// Classifies one log query envelope: status `"1"` yields its entries,
/// status `"0"` with the "no records" message yields the empty sequence,
/// any other `"0"` is a hard failure, and any other status is unexpected.
pub open spec fn classify_spec(status: Seq<char>, message: Seq<char>, entries: Seq<LogEntry>)
    -> LogClass {
    if status == "1"@ {
        LogClass::Entries(entries)
    } else if status == "0"@ {
        if message == no_records_message() {
            LogClass::Entries(Seq::empty())
        } else {
            LogClass::Hard
        }
    } else {
        LogClass::Unexpected(status)
    }
}

/// Turns one log query envelope into its contributed entries, the empty
/// list for the recognized "no records found" outcome, or the error that
/// aborts the whole fetch.
pub fn classify_log_response(env: ResponseEnvelope<Vec<LogEntry>>) -> (r: Result<
    Vec<LogEntry>,
    FetchError,
>)
    ensures
        match classify_spec(env.status@, env.message@, env.result@) {
            LogClass::Entries(s) => r is Ok && r->Ok_0@ == s,
            LogClass::Hard => r is Err && r->Err_0 is LogQueryFailed,
            LogClass::Unexpected(st) => r is Err && r->Err_0 is UnexpectedStatus
                && r->Err_0->UnexpectedStatus_0@ == st,
        },
{
    if str_eq(env.status.as_str(), "1") {
        Ok(env.result)
    } else if str_eq(env.status.as_str(), "0") {
        if str_eq(env.message.as_str(), "No records found") {
            Ok(Vec::new())
        } else {
            Err(FetchError::LogQueryFailed)
        }
    } else {
        Err(FetchError::UnexpectedStatus(env.status))
    }
}

/// Resolves the block number for a timestamp lookup from the response
/// envelope. On success the result record carries the requested timestamp
/// unchanged and the numeric reading of the envelope's payload.
pub fn resolve_block_by_timestamp(timestamp: u64, env: ResponseEnvelope<String>) -> (r: Result<
    BlockNumberByTimestamp,
    FetchError,
>)
    ensures
        env.status@ == "1"@ && numeric_value_u64(env.result@) is Some ==> r is Ok
            && r->Ok_0.timestamp == timestamp && r->Ok_0.block_number == numeric_value_u64(
            env.result@,
        )->0,
        env.status@ == "1"@ && numeric_value_u64(env.result@) is None ==> r is Err
            && r->Err_0 is MalformedNumericField,
        env.status@ == "0"@ ==> r is Err && r->Err_0 is BlockResolutionFailed,
        env.status@ != "1"@ && env.status@ != "0"@ ==> r is Err && r->Err_0 is UnexpectedStatus
            && r->Err_0->UnexpectedStatus_0@ == env.status@,
{
    proof {
        reveal_strlit("0");
        reveal_strlit("1");
    }
    if str_eq(env.status.as_str(), "0") {
        assert(env.status@ != "1"@) by {
            assert("0"@[0] == '0');
            assert("1"@[0] == '1');
        }
        Err(FetchError::BlockResolutionFailed)
    } else if str_eq(env.status.as_str(), "1") {
        match crate::numeric::parse_numeric(env.result.as_str()) {
            Some(block_number) => Ok(BlockNumberByTimestamp { timestamp, block_number }),
            None => Err(FetchError::MalformedNumericField),
        }
    } else {
        Err(FetchError::UnexpectedStatus(env.status))
    }
}

/// Concatenates the entries of the two queries, first query first, and
/// sorts the whole ascending by `(block_number, log_index)`. Nothing is
/// deduplicated. Fails exactly when some entry's ordering key is not a
/// well-formed `u64` encoding.
pub fn merge_and_sort(a: Vec<LogEntry>, b: Vec<LogEntry>) -> (r: Result<Vec<LogEntry>, FetchError>)
    ensures
        all_entries_valid(a@ + b@) ==> r is Ok && r->Ok_0@ == sort_spec(a@ + b@),
        !all_entries_valid(a@ + b@) ==> r is Err && r->Err_0 is MalformedNumericField,
        r is Ok ==> entries_sorted(r->Ok_0@) && r->Ok_0@.to_multiset() == (a@ + b@).to_multiset(),
{
    let ghost combined = a@ + b@;
    let mut merged = a;
    let mut rest = b;
    merged.append(&mut rest);
    assert(merged@ == combined);
    let mut i: usize = 0;
    while i < merged.len()
        invariant
            i <= merged@.len(),
            combined == a@ + b@,
            merged@ == combined,
            forall|j: int| 0 <= j < i ==> crate::model::entry_valid(#[trigger] merged@[j]),
        decreases merged@.len() - i,
    {
        if !check_entry_valid(&merged[i]) {
            assert(!all_entries_valid(combined));
            return Err(FetchError::MalformedNumericField);
        }
        i = i + 1;
    }
    assert(all_entries_valid(combined));
    Ok(sort_entries(merged))
}

/// How the whole dual-query fetch ends, as a function of the two response
/// envelopes alone.
pub enum FetchOutcome {
    /// The merged, ordered sequence of both queries' entries.
    Entries(Seq<LogEntry>),
    /// Some query reported a hard failure.
    Failed,
    /// Some query returned a status outside the known set; the payload is
    /// the first such status.
    Unexpected(Seq<char>),
    /// Some entry's ordering key is not a well-formed `u64` encoding.
    Malformed,
}

/// The outcome of the dual-query fetch: the first query's failure aborts
/// the operation with the second query's content irrelevant; otherwise the
/// second query is classified the same way; when both contribute entries,
/// the outcome is their concatenation sorted by `(block_number,
/// log_index)`, without deduplication.
pub open spec fn merged_outcome(
    status_a: Seq<char>,
    message_a: Seq<char>,
    entries_a: Seq<LogEntry>,
    status_b: Seq<char>,
    message_b: Seq<char>,
    entries_b: Seq<LogEntry>,
) -> FetchOutcome {
    match classify_spec(status_a, message_a, entries_a) {
        LogClass::Hard => FetchOutcome::Failed,
        LogClass::Unexpected(st) => FetchOutcome::Unexpected(st),
        LogClass::Entries(la) => match classify_spec(status_b, message_b, entries_b) {
            LogClass::Hard => FetchOutcome::Failed,
            LogClass::Unexpected(st) => FetchOutcome::Unexpected(st),
            LogClass::Entries(lb) => if all_entries_valid(la + lb) {
                FetchOutcome::Entries(sort_spec(la + lb))
            } else {
                FetchOutcome::Malformed
            },
        },
    }
}

/// Relates an executable fetch result to the specified outcome.
pub open spec fn outcome_matches(r: Result<Vec<LogEntry>, FetchError>, o: FetchOutcome) -> bool {
    match o {
        FetchOutcome::Entries(s) => r is Ok && r->Ok_0@ == s,
        FetchOutcome::Failed => r is Err && r->Err_0 is LogQueryFailed,
        FetchOutcome::Unexpected(st) => r is Err && r->Err_0 is UnexpectedStatus
            && r->Err_0->UnexpectedStatus_0@ == st,
        FetchOutcome::Malformed => r is Err && r->Err_0 is MalformedNumericField,
    }
}

/// Merges the two log query responses of a dual-filter fetch into one
/// ascending-ordered sequence, or the error of the first query that fails.
pub fn merge_log_responses(
    env_a: ResponseEnvelope<Vec<LogEntry>>,
    env_b: ResponseEnvelope<Vec<LogEntry>>,
) -> (r: Result<Vec<LogEntry>, FetchError>)
    ensures
        outcome_matches(
            r,
            merged_outcome(
                env_a.status@,
                env_a.message@,
                env_a.result@,
                env_b.status@,
                env_b.message@,
                env_b.result@,
            ),
        ),
        r is Ok ==> entries_sorted(r->Ok_0@),
{
    let entries_a = match classify_log_response(env_a) {
        Ok(v) => v,
        Err(e) => {
            return Err(e);
        },
    };
    let entries_b = match classify_log_response(env_b) {
        Ok(v) => v,
        Err(e) => {
            return Err(e);
        },
    };
    merge_and_sort(entries_a, entries_b)
}

/// The fetch is deterministic: two results that match the outcome computed
/// from one and the same pair of envelopes are the same result — the same
/// entries in the same order on success, and the same error otherwise.
pub proof fn lemma_fetch_idempotent(
    r1: Result<Vec<LogEntry>, FetchError>,
    r2: Result<Vec<LogEntry>, FetchError>,
    o: FetchOutcome,
)
    requires
        outcome_matches(r1, o),
        outcome_matches(r2, o),
    ensures
        r1 is Ok <==> r2 is Ok,
        r1 is Ok ==> r1->Ok_0@ == r2->Ok_0@,
        r1 is Err ==> (r1->Err_0 is LogQueryFailed <==> r2->Err_0 is LogQueryFailed),
        r1 is Err ==> (r1->Err_0 is MalformedNumericField <==> r2->Err_0 is MalformedNumericField),
        r1 is Err ==> (r1->Err_0 is UnexpectedStatus <==> r2->Err_0 is UnexpectedStatus),
        r1 is Err && r1->Err_0 is UnexpectedStatus ==> r1->Err_0->UnexpectedStatus_0@
            == r2->Err_0->UnexpectedStatus_0@,
{
}

} // verus!
