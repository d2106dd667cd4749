//! The packed name table and its substring scanner.
//!
//! The table is a single immutable byte blob holding one
//! terminator-delimited name per codepoint, in ordinal order: entry `k`
//! (0-based, counting from the table start) names codepoint record `k`.
//! The terminator byte never occurs inside a name, so no offsets or
//! lengths are stored. The scanner walks the blob once, left to right,
//! and reports at most one match per entry.
//!
//! Matching is byte-exact: the scanner performs no case folding. Callers
//! that want case-insensitive lookup fold both the table and the query to
//! the same case before calling.

use vstd::prelude::*;

use crate::UcdError;

verus! {

/// The byte that terminates each entry of the packed name table.
pub const TERMINATOR: u8 = 0;

/// One match of a search: the ordinal of the matched entry and a copy of
/// that entry's bytes. Transient; produced per invocation.
#[derive(Debug)]
pub struct SearchResult {
    /// 0-based position of the matched entry among the table's entries,
    /// which is also its index into the codepoint record array.
    pub idx: usize,
    /// The full name of the matched entry, copied out of the table.
    pub name: Vec<u8>,
}

/// The index of the first terminator at or after position `i`, or
/// `t.len()` if no terminator follows.
pub open spec fn next_term(t: Seq<u8>, i: int) -> int
    decreases t.len() - i,
{
    if i < 0 || i >= t.len() {
        t.len() as int
    } else if t[i] == TERMINATOR {
        i
    } else {
        next_term(t, i + 1)
    }
}

/// The start offset of entry `k`: 0 for the first entry, one past the
/// `k`-th terminator otherwise, saturating at `t.len()` once the table
/// holds no further entries.
pub open spec fn entry_start(t: Seq<u8>, k: int) -> int
    decreases k,
{
    if k <= 0 {
        0
    } else {
        let e = next_term(t, entry_start(t, k - 1));
        if e < t.len() {
            e + 1
        } else {
            t.len() as int
        }
    }
}

/// The end offset of entry `k`: the terminator that closes it, or
/// `t.len()` for an unterminated final entry.
pub open spec fn entry_end(t: Seq<u8>, k: int) -> int {
    next_term(t, entry_start(t, k))
}

/// The bytes of entry `k` (empty beyond the last entry).
pub open spec fn entry_seq(t: Seq<u8>, k: int) -> Seq<u8> {
    t.subrange(entry_start(t, k), entry_end(t, k))
}

/// `q` occurs in `s` as a contiguous byte subsequence.
pub open spec fn contains_seq(s: Seq<u8>, q: Seq<u8>) -> bool {
    exists|i: int| 0 <= i && i + q.len() <= s.len() && #[trigger] s.subrange(i, i + q.len()) == q
}

/// Entry `k` of table `t` contains the query `q`.
pub open spec fn entry_matches(t: Seq<u8>, q: Seq<u8>, k: int) -> bool {
    0 <= k && contains_seq(entry_seq(t, k), q)
}

/// `q` matches the raw table at position `a`, wholly inside one entry.
pub open spec fn is_match_at(t: Seq<u8>, q: Seq<u8>, a: int) -> bool {
    &&& 0 <= a
    &&& a + q.len() <= t.len()
    &&& t.subrange(a, a + q.len()) == q
    &&& forall|p: int| a <= p < a + q.len() ==> t[p] != TERMINATOR
}

/// Some result in `res` carries ordinal `k`.
pub open spec fn has_ordinal(res: Seq<SearchResult>, k: int) -> bool {
    exists|j: int| 0 <= j < res.len() && res[j].idx == k
}

proof fn lemma_next_term(t: Seq<u8>, i: int)
    requires
        0 <= i <= t.len(),
    ensures
        i <= next_term(t, i) <= t.len(),
        next_term(t, i) < t.len() ==> t[next_term(t, i)] == TERMINATOR,
        forall|p: int| i <= p < next_term(t, i) ==> t[p] != TERMINATOR,
    decreases t.len() - i,
{
    if i < t.len() && t[i] != TERMINATOR {
        lemma_next_term(t, i + 1);
    }
}

proof fn lemma_next_term_exact(t: Seq<u8>, i: int, j: int)
    requires
        0 <= i <= j <= t.len(),
        forall|p: int| i <= p < j ==> t[p] != TERMINATOR,
        j == t.len() || t[j] == TERMINATOR,
    ensures
        next_term(t, i) == j,
    decreases j - i,
{
    if i < j {
        lemma_next_term_exact(t, i + 1, j);
    }
}

proof fn lemma_entry_start_bounds(t: Seq<u8>, k: int)
    ensures
        0 <= entry_start(t, k) <= t.len(),
        entry_start(t, k) <= entry_end(t, k) <= t.len(),
    decreases k,
{
    if k > 0 {
        lemma_entry_start_bounds(t, k - 1);
    }
    lemma_next_term(t, entry_start(t, k));
}

/// Once the table is exhausted at entry `k`, every later entry is empty.
proof fn lemma_entries_exhausted(t: Seq<u8>, k: int, k2: int)
    requires
        0 <= k <= k2,
        entry_start(t, k) == t.len(),
    ensures
        entry_start(t, k2) == t.len(),
    decreases k2 - k,
{
    if k < k2 {
        lemma_entry_start_bounds(t, k2 - 1);
        lemma_entries_exhausted(t, k, k2 - 1);
        lemma_next_term(t, entry_start(t, k2 - 1));
    }
}

/// A matching entry yields a raw-table match position inside that entry.
proof fn lemma_entry_match_to_abs(t: Seq<u8>, q: Seq<u8>, k: int)
    requires
        q.len() > 0,
        entry_matches(t, q, k),
    ensures
        exists|a: int|
            is_match_at(t, q, a) && entry_start(t, k) <= a && a + q.len() <= entry_end(t, k),
{
    lemma_entry_start_bounds(t, k);
    let s = entry_start(t, k);
    let e = entry_end(t, k);
    lemma_next_term(t, s);
    let es = entry_seq(t, k);
    let p = choose|p: int|
        0 <= p && p + q.len() <= es.len() && #[trigger] es.subrange(p, p + q.len()) == q;
    let a = s + p;
    assert(t.subrange(a, a + q.len()) =~= q) by {
        assert forall|x: int| 0 <= x < q.len() implies t.subrange(a, a + q.len())[x] == q[x] by {
            assert(es.subrange(p, p + q.len())[x] == q[x]);
        }
    }
    assert(is_match_at(t, q, a) && entry_start(t, k) <= a && a + q.len() <= entry_end(t, k));
}

/// A raw-table match lying inside entry `k` makes entry `k` a match.
proof fn lemma_abs_match_to_entry(t: Seq<u8>, q: Seq<u8>, k: int, a: int)
    requires
        0 <= k,
        entry_start(t, k) <= a,
        a + q.len() <= entry_end(t, k),
        t.subrange(a, a + q.len()) == q,
    ensures
        entry_matches(t, q, k),
{
    lemma_entry_start_bounds(t, k);
    let s = entry_start(t, k);
    let es = entry_seq(t, k);
    let p = a - s;
    assert(es.subrange(p, p + q.len()) =~= q) by {
        assert forall|x: int| 0 <= x < q.len() implies es.subrange(p, p + q.len())[x] == q[x] by {
            assert(t.subrange(a, a + q.len())[x] == q[x]);
        }
    }
    assert(0 <= p && p + q.len() <= es.len() && es.subrange(p, p + q.len()) == q);
}

/// Scans the packed name table for `needle` and returns at most one
/// match per entry, each tagged with the entry's ordinal, in ascending
/// ordinal order.
///
/// An empty query is rejected as a usage error, never treated as "match
/// everything". A candidate match may end exactly at the last byte of
/// the table; the final entry need not be terminator-delimited.
pub fn search_ucds(table: &[u8], needle: &[u8]) -> (r: Result<Vec<SearchResult>, UcdError>)
    ensures
        r is Err <==> needle@.len() == 0,
        r is Err ==> r->Err_0 == UcdError::UsageError,
        r is Ok ==> (({
            let res = r->Ok_0@;
            &&& (forall|j: int|
                0 <= j < res.len() ==> entry_matches(table@, needle@, (#[trigger] res[j]).idx as int))
            &&& (forall|j: int|
                0 <= j < res.len() ==> (#[trigger] res[j]).name@ == entry_seq(
                    table@,
                    res[j].idx as int,
                ))
            &&& (forall|j: int|
                0 <= j < res.len() ==> contains_seq((#[trigger] res[j]).name@, needle@))
            &&& (forall|j1: int, j2: int|
                0 <= j1 < j2 < res.len() ==> (#[trigger] res[j1]).idx < (#[trigger] res[j2]).idx)
            &&& (forall|k: int| #[trigger] entry_matches(table@, needle@, k) ==> has_ordinal(res, k))
        })),
{
    if needle.len() == 0 {
        return Err(UcdError::UsageError);
    }
    let ghost t = table@;
    let ghost q = needle@;
    let mut results: Vec<SearchResult> = Vec::new();
    let mut i: usize = 0;
    let mut pos: usize = 0;
    let mut start: usize = 0;
    while i < table.len()
        invariant
            t == table@,
            q == needle@,
            q.len() > 0,
            i <= t.len(),
            pos <= i,
            start <= i,
            start == entry_start(t, pos as int),
            forall|p: int| start <= p < i ==> t[p] != TERMINATOR,
            forall|j: int|
                0 <= j < results@.len() ==> (#[trigger] results@[j]).idx <= pos && entry_matches(
                    t,
                    q,
                    results@[j].idx as int,
                ) && results@[j].name@ == entry_seq(t, results@[j].idx as int) && contains_seq(
                    results@[j].name@,
                    q,
                ),
            forall|j1: int, j2: int|
                0 <= j1 < j2 < results@.len() ==> (#[trigger] results@[j1]).idx < (
                #[trigger] results@[j2]).idx,
            forall|k: int| 0 <= k < pos && #[trigger] entry_matches(t, q, k) ==> has_ordinal(
                results@,
                k,
            ),
            forall|a: int|
                start <= a < i && #[trigger] is_match_at(t, q, a) ==> has_ordinal(
                    results@,
                    pos as int,
                ),
            has_ordinal(results@, pos as int) ==> i >= entry_end(t, pos as int),
        decreases t.len() - i,
    {
        if table[i] == TERMINATOR {
            proof {
                lemma_next_term_exact(t, start as int, i as int);
                assert(entry_end(t, pos as int) == i);
                if entry_matches(t, q, pos as int) {
                    lemma_entry_match_to_abs(t, q, pos as int);
                    let a = choose|a: int|
                        is_match_at(t, q, a) && entry_start(t, pos as int) <= a && a + q.len()
                            <= entry_end(t, pos as int);
                    assert(a < i);
                    assert(has_ordinal(results@, pos as int));
                }
                assert(entry_start(t, pos as int + 1) == i + 1);
            }
            pos = pos + 1;
            start = i + 1;
            i = i + 1;
        } else if table[i] != needle[0] {
            proof {
                assert(!is_match_at(t, q, i as int)) by {
                    if i + q.len() <= t.len() && t.subrange(i as int, i as int + q.len()) == q {
                        assert(t.subrange(i as int, i as int + q.len())[0] == t[i as int]);
                    }
                }
            }
            i = i + 1;
        } else if table.len() - i < needle.len() {
            proof {
                assert(!is_match_at(t, q, i as int));
            }
            i = i + 1;
        } else {
            // a possible match: verify the remaining bytes positionally,
            // aborting if the entry ends first
            let mut m: usize = 1;
            let mut ok: bool = true;
            while ok && m < needle.len()
                invariant
                    t == table@,
                    q == needle@,
                    q.len() > 0,
                    i + q.len() <= t.len(),
                    t.len() <= usize::MAX,
                    1 <= m <= q.len(),
                    ok ==> (forall|p: int|
                        i <= p < i + m ==> (#[trigger] t[p]) == q[p - i] && t[p] != TERMINATOR),
                    !ok ==> !is_match_at(t, q, i as int),
                decreases q.len() - m + (if ok { 1int } else { 0int }),
            {
                if table[i + m] == TERMINATOR || table[i + m] != needle[m] {
                    proof {
                        assert(!is_match_at(t, q, i as int)) by {
                            if t.subrange(i as int, i as int + q.len()) == q {
                                assert(t.subrange(i as int, i as int + q.len())[m as int] == t[i
                                    + m]);
                            }
                        }
                    }
                    ok = false;
                } else {
                    m = m + 1;
                }
            }
            if !ok {
                i = i + 1;
            } else {
                proof {
                    assert(t.subrange(i as int, i as int + q.len()) =~= q);
                    assert(is_match_at(t, q, i as int));
                }
                // the whole query matched: locate the end of this entry
                let mut end: usize = i + needle.len();
                while end < table.len() && table[end] != TERMINATOR
                    invariant
                        t == table@,
                        i + q.len() <= end <= t.len(),
                        forall|p: int| i + q.len() <= p < end ==> t[p] != TERMINATOR,
                    decreases t.len() - end,
                {
                    end = end + 1;
                }
                proof {
                    assert forall|p: int| start <= p < end implies t[p] != TERMINATOR by {
                        if i <= p < i + q.len() {
                            assert(t[p] == q[p - i]);
                        }
                    }
                    lemma_next_term_exact(t, start as int, end as int);
                    assert(entry_end(t, pos as int) == end);
                    lemma_abs_match_to_entry(t, q, pos as int, i as int);
                    assert(!has_ordinal(results@, pos as int));
                }
                let name = vstd::slice::slice_to_vec(vstd::slice::slice_subrange(
                    table,
                    start,
                    end,
                ));
                let ghost old_results = results@;
                results.push(SearchResult { idx: pos, name });
                proof {
                    assert(results@[results@.len() - 1].idx == pos);
                    assert(has_ordinal(results@, pos as int));
                    assert forall|k: int|
                        0 <= k < pos && #[trigger] entry_matches(t, q, k) implies has_ordinal(
                        results@,
                        k,
                    ) by {
                        assert(has_ordinal(old_results, k));
                        let j = choose|j: int| 0 <= j < old_results.len() && old_results[j].idx == k;
                        assert(results@[j].idx == k);
                    }
                }
                i = end;
            }
        }
    }
    proof {
        lemma_next_term_exact(t, start as int, t.len() as int);
        assert(entry_end(t, pos as int) == t.len());
        if entry_matches(t, q, pos as int) {
            lemma_entry_match_to_abs(t, q, pos as int);
            let a = choose|a: int|
                is_match_at(t, q, a) && entry_start(t, pos as int) <= a && a + q.len() <= entry_end(
                    t,
                    pos as int,
                );
            assert(a < i);
            assert(has_ordinal(results@, pos as int));
        }
        assert(entry_start(t, pos as int + 1) == t.len());
        assert forall|k: int| #[trigger] entry_matches(t, q, k) implies has_ordinal(results@, k) by {
            if k > pos {
                lemma_entries_exhausted(t, pos as int + 1, k);
                lemma_entry_start_bounds(t, k);
                assert(entry_seq(t, k).len() == 0);
                assert(false);
            }
        }
    }
    Ok(results)
}

/// The number of terminator bytes in `t` before position `i`.
pub open spec fn count_terms(t: Seq<u8>, i: int) -> int
    decreases i,
{
    if i <= 0 {
        0
    } else {
        count_terms(t, i - 1) + if t[i - 1] == TERMINATOR {
            1int
        } else {
            0int
        }
    }
}

proof fn lemma_count_terms_flat(t: Seq<u8>, a: int, b: int)
    requires
        0 <= a <= b,
        forall|p: int| a <= p < b ==> t[p] != TERMINATOR,
    ensures
        count_terms(t, b) == count_terms(t, a),
    decreases b - a,
{
    if a < b {
        lemma_count_terms_flat(t, a, b - 1);
    }
}

/// An entry's ordinal is its 0-based position among the table's entries,
/// counting from the table start: as long as entry `k` exists, exactly
/// `k` terminators precede its start.
pub proof fn lemma_ordinal_counts_entries(t: Seq<u8>, k: int)
    requires
        0 <= k,
        entry_start(t, k) < t.len(),
    ensures
        count_terms(t, entry_start(t, k)) == k,
    decreases k,
{
    if k > 0 {
        let s0 = entry_start(t, k - 1);
        lemma_entry_start_bounds(t, k - 1);
        let e0 = next_term(t, s0);
        lemma_next_term(t, s0);
        assert(e0 < t.len());
        lemma_ordinal_counts_entries(t, k - 1);
        lemma_count_terms_flat(t, s0, e0);
        assert(count_terms(t, e0 + 1) == count_terms(t, e0) + 1);
    }
}

/// No ordinal appears twice in a search's results: the ordinals are
/// strictly ascending, so any two distinct results carry distinct
/// ordinals.
pub proof fn lemma_no_duplicate_ordinals(res: Seq<SearchResult>)
    requires
        forall|j1: int, j2: int|
            0 <= j1 < j2 < res.len() ==> (#[trigger] res[j1]).idx < (#[trigger] res[j2]).idx,
    ensures
        forall|j1: int, j2: int|
            0 <= j1 < res.len() && 0 <= j2 < res.len() && j1 != j2 ==> (#[trigger] res[j1]).idx != (
            #[trigger] res[j2]).idx,
{
}

/// The length of the longest matched name among `results` (0 when there
/// is none), used by the presentation layer to align output columns.
pub fn max_name_len(results: &[SearchResult]) -> (r: usize)
    ensures
        forall|j: int| 0 <= j < results@.len() ==> (#[trigger] results@[j]).name@.len() <= r,
        r == 0 || exists|j: int|
            0 <= j < results@.len() && (#[trigger] results@[j]).name@.len() == r,
{
    let mut r: usize = 0;
    let mut j: usize = 0;
    while j < results.len()
        invariant
            j <= results@.len(),
            forall|k: int| 0 <= k < j ==> (#[trigger] results@[k]).name@.len() <= r,
            r == 0 || exists|k: int| 0 <= k < j && (#[trigger] results@[k]).name@.len() == r,
        decreases results@.len() - j,
    {
        if results[j].name.len() > r {
            r = results[j].name.len();
        }
        j = j + 1;
    }
    r
}

} // verus!
