//! Ordering of merged log entries: a stable insertion sort by the pair
//! `(block_number, log_index)`, pinned down by the specification-level
//! functions [`insert_sorted_spec`] and [`sort_spec`], so that the sorted
//! result is a mathematical function of the input sequence.

use vstd::prelude::*;
use vstd::multiset::Multiset;

use crate::model::{all_entries_valid, check_key_le, entry_valid, key_le, LogEntry};

verus! {

/// Every pair of positions in `s` is ordered by `key_le`; in particular
/// every adjacent pair is.
pub open spec fn entries_sorted(s: Seq<LogEntry>) -> bool {
    forall|i: int, j: int| 0 <= i < j < s.len() ==> key_le(#[trigger] s[i], #[trigger] s[j])
}

/// Places `e` behind every leading element whose key is less than or equal
/// to `e`'s, so that an element inserted later never jumps ahead of an
/// equal-keyed element inserted earlier.
pub open spec fn insert_sorted_spec(s: Seq<LogEntry>, e: LogEntry) -> Seq<LogEntry>
    decreases s.len(),
{
    if s.len() == 0 {
        seq![e]
    } else if key_le(s[0], e) {
        seq![s[0]] + insert_sorted_spec(s.drop_first(), e)
    } else {
        seq![e] + s
    }
}

/// The stable insertion sort of `s` by `(block_number, log_index)`.
pub open spec fn sort_spec(s: Seq<LogEntry>) -> Seq<LogEntry>
    decreases s.len(),
{
    if s.len() == 0 {
        Seq::empty()
    } else {
        insert_sorted_spec(sort_spec(s.drop_last()), s.last())
    }
}

/// Inserting into a sorted sequence keeps it sorted and adds exactly the
/// new element to its multiset of entries.
proof fn lemma_insert_sorted_spec(s: Seq<LogEntry>, e: LogEntry)
    ensures
        insert_sorted_spec(s, e).len() == s.len() + 1,
        insert_sorted_spec(s, e).to_multiset() =~= s.to_multiset().insert(e),
        entries_sorted(s) ==> entries_sorted(insert_sorted_spec(s, e)),
    decreases s.len(),
{
    broadcast use vstd::seq_lib::group_to_multiset_ensures;
    broadcast use vstd::multiset::group_multiset_axioms;

    let ins = insert_sorted_spec(s, e);
    if s.len() == 0 {
        assert(seq![e] =~= Seq::empty().push(e));
        assert(s.to_multiset() =~= Multiset::empty());
    } else if key_le(s[0], e) {
        let tail = s.drop_first();
        lemma_insert_sorted_spec(tail, e);
        let tail_ins = insert_sorted_spec(tail, e);
        assert(ins =~= tail_ins.insert(0, s[0]));
        vstd::seq_lib::to_multiset_insert(tail_ins, 0, s[0]);
        assert(s =~= tail.insert(0, s[0]));
        vstd::seq_lib::to_multiset_insert(tail, 0, s[0]);
        if entries_sorted(s) {
            assert(entries_sorted(tail)) by {
                assert(forall|i: int| 0 <= i < tail.len() ==> tail[i] == #[trigger] s[i + 1]);
            }
            assert(entries_sorted(tail_ins));
            assert forall|j: int| 1 <= j < ins.len() implies key_le(ins[0], ins[j]) by {
                let x = tail_ins[j - 1];
                assert(tail_ins.contains(x));
                vstd::seq_lib::to_multiset_contains(tail_ins, x);
                assert(tail_ins.to_multiset().count(x) > 0);
                if x == e {
                    assert(key_le(s[0], x));
                } else {
                    assert(tail.to_multiset().count(x) > 0);
                    vstd::seq_lib::to_multiset_contains(tail, x);
                    let k = choose|k: int| 0 <= k < tail.len() && tail[k] == x;
                    assert(s[k + 1] == x);
                    assert(key_le(s[0], x));
                }
            }
            assert(entries_sorted(ins)) by {
                assert(forall|i: int, j: int|
                    1 <= i < j < ins.len() ==> key_le(#[trigger] ins[i], #[trigger] ins[j]))
                    by {
                    assert(forall|i: int, j: int|
                        1 <= i < j < ins.len() ==> ins[i] == tail_ins[i - 1] && ins[j]
                            == tail_ins[j - 1]);
                }
            }
        }
    } else {
        assert(ins =~= s.insert(0, e));
        vstd::seq_lib::to_multiset_insert(s, 0, e);
        if entries_sorted(s) {
            assert forall|j: int| 1 <= j < ins.len() implies key_le(ins[0], ins[j]) by {
                assert(ins[j] == s[j - 1]);
                if j > 1 {
                    assert(key_le(s[0], s[j - 1]));
                }
                assert(!key_le(s[0], e));
                assert(key_le(e, s[0]));
            }
        }
    }
}

/// The sort of any sequence is sorted: every adjacent pair of the result
/// is ordered by ascending block number, ties broken by log index.
pub proof fn lemma_sort_spec_sorted(s: Seq<LogEntry>)
    ensures
        entries_sorted(sort_spec(s)),
    decreases s.len(),
{
    if s.len() > 0 {
        lemma_sort_spec_sorted(s.drop_last());
        lemma_insert_sorted_spec(sort_spec(s.drop_last()), s.last());
    }
}

/// The sort of any sequence holds exactly the entries of the input, with
/// multiplicity: nothing is deduplicated, added or lost.
pub proof fn lemma_sort_spec_multiset(s: Seq<LogEntry>)
    ensures
        sort_spec(s).to_multiset() =~= s.to_multiset(),
        sort_spec(s).len() == s.len(),
    decreases s.len(),
{
    broadcast use vstd::seq_lib::group_to_multiset_ensures;

    if s.len() > 0 {
        lemma_sort_spec_multiset(s.drop_last());
        lemma_insert_sorted_spec(sort_spec(s.drop_last()), s.last());
        assert(s =~= s.drop_last().push(s.last()));
    }
}

/// Inserting at the first position whose element's key exceeds `e`'s is
/// exactly what [`insert_sorted_spec`] does.
proof fn lemma_insert_sorted_at(s: Seq<LogEntry>, e: LogEntry, p: int)
    requires
        0 <= p <= s.len(),
        forall|q: int| 0 <= q < p ==> key_le(#[trigger] s[q], e),
        p < s.len() ==> !key_le(s[p], e),
    ensures
        insert_sorted_spec(s, e) == s.insert(p, e),
    decreases p,
{
    if p == 0 {
        if s.len() == 0 {
            assert(insert_sorted_spec(s, e) =~= s.insert(0, e));
        } else {
            assert(!key_le(s[0], e));
            assert(insert_sorted_spec(s, e) =~= s.insert(0, e));
        }
    } else {
        let tail = s.drop_first();
        assert(key_le(s[0], e));
        assert(forall|q: int| 0 <= q < p - 1 ==> key_le(#[trigger] tail[q], e)) by {
            assert(forall|q: int| 0 <= q < tail.len() ==> tail[q] == #[trigger] s[q + 1]);
        }
        assert(p - 1 < tail.len() ==> !key_le(tail[p - 1], e));
        lemma_insert_sorted_at(tail, e, p - 1);
        assert(seq![s[0]] + tail.insert(p - 1, e) =~= s.insert(p, e));
    }
}

/// Sorts the entries ascending by `(block_number, log_index)`, stably.
pub fn sort_entries(entries: Vec<LogEntry>) -> (r: Vec<LogEntry>)
    requires
        all_entries_valid(entries@),
    ensures
        r@ == sort_spec(entries@),
        entries_sorted(r@),
        r@.to_multiset() == entries@.to_multiset(),
        all_entries_valid(r@),
{
    let ghost orig = entries@;
    let mut rest = entries;
    let mut out: Vec<LogEntry> = Vec::new();
    while rest.len() > 0
        invariant
            rest.len() <= orig.len(),
            rest@ == orig.subrange(orig.len() - rest.len(), orig.len() as int),
            out@ == sort_spec(orig.subrange(0, orig.len() - rest.len())),
            all_entries_valid(orig),
            all_entries_valid(out@),
        decreases rest.len(),
    {
        let ghost k = orig.len() - rest@.len();
        let e = rest.remove(0);
        proof {
            assert(e == orig[k]);
            assert(rest@ =~= orig.subrange(orig.len() - rest@.len(), orig.len() as int));
        }
        let ghost sorted_prefix = out@;
        let mut p: usize = 0;
        while p < out.len() && check_key_le(&out[p], &e)
            invariant
                p <= out.len(),
                out@ == sorted_prefix,
                all_entries_valid(out@),
                entry_valid(e),
                forall|q: int| 0 <= q < p ==> key_le(#[trigger] out@[q], e),
            decreases out.len() - p,
        {
            p = p + 1;
        }
        out.insert(p, e);
        proof {
            lemma_insert_sorted_at(sorted_prefix, e, p as int);
            let grown = orig.subrange(0, k + 1);
            assert(grown.drop_last() =~= orig.subrange(0, k as int));
            assert(grown.last() == orig[k]);
            assert(out@ == sort_spec(grown));
            assert(all_entries_valid(out@)) by {
                assert(forall|i: int|
                    0 <= i < out@.len() && i != p ==> #[trigger] out@[i] == if i < p {
                        sorted_prefix[i]
                    } else {
                        sorted_prefix[i - 1]
                    });
            }
        }
    }
    proof {
        assert(orig.subrange(0, orig.len() as int) =~= orig);
        lemma_sort_spec_sorted(orig);
        lemma_sort_spec_multiset(orig);
    }
    out
}

} // verus!
