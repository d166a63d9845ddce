//! What holds of the two searches: where linear search ends, and when binary
//! search is sure to end.

use vstd::prelude::*;

use crate::app::{Algorithm, UpperRule};
use crate::run::{midpoint, Run};
use crate::sorting::sorted;

verus! {

/// The least `e` with `n <= 2^e`: the logarithm of `n` to base 2, rounded
/// up. For `n` below 2 it is 0.
pub open spec fn ceil_log2(n: nat) -> nat
    decreases n,
{
    if n <= 1 {
        0
    } else {
        1 + ceil_log2((n + 1) / 2)
    }
}

/// `s` is a linear search that has not met its target before its cursor.
pub open spec fn scanning(s: Run) -> bool {
    &&& s.algorithm == Algorithm::LinearSearch
    &&& !s.completed
    &&& s.j <= s.values.len()
}

/// `s` is a binary search, not completed, whose interval is not empty, lies
/// inside the sorted array and holds the target.
pub open spec fn closing_in(s: Run) -> bool {
    &&& s.algorithm == Algorithm::BinarySearch
    &&& !s.completed
    &&& s.low < s.high <= s.values.len()
    &&& sorted(s.values)
    &&& exists|t: int| s.low <= t < s.high && s.values[t] == s.search
}

/// `ceil_log2` grows with its argument.
pub proof fn lemma_ceil_log2_grows(a: nat, b: nat)
    requires
        a <= b,
    ensures
        ceil_log2(a) <= ceil_log2(b),
    decreases b,
{
    if a > 1 {
        lemma_ceil_log2_grows((a + 1) / 2, (b + 1) / 2);
    }
}

/// `ceil_log2(n)` is the least exponent whose power of 2 reaches `n`.
pub proof fn lemma_ceil_log2_is_least(n: nat)
    requires
        n >= 1,
    ensures
        n <= vstd::arithmetic::power2::pow2(ceil_log2(n)),
        ceil_log2(n) > 0 ==> vstd::arithmetic::power2::pow2((ceil_log2(n) - 1) as nat) < n,
    decreases n,
{
    vstd::arithmetic::power2::lemma2_to64();
    if n > 1 {
        let half = (n + 1) / 2;
        lemma_ceil_log2_is_least(half);
        vstd::arithmetic::power2::lemma_pow2_unfold(ceil_log2(n));
        if ceil_log2(half) > 0 {
            vstd::arithmetic::power2::lemma_pow2_unfold(ceil_log2(half));
        }
    }
}

/// Linear search from a cursor at or before the first match `at`: the run is
/// completed by the operation that looks at `at` and by none before, and it
/// reports `at`.
pub proof fn lemma_scan_finds(s: Run, at: nat, k: nat)
    requires
        scanning(s),
        s.j <= at < s.values.len(),
        s.values[at as int] == s.search,
        forall|x: int| s.j <= x < at ==> s.values[x] != s.search,
    ensures
        s.after(k).completed <==> k >= at - s.j + 1,
        s.after(k).completed ==> s.after(k).search_result == Some(at) && s.after(k).j == at,
        s.after(k).values == s.values,
    decreases k,
{
    if k > 0 {
        if s.j == at {
            s.next().lemma_completed_is_final((k - 1) as nat);
        } else {
            lemma_scan_finds(s.next(), at, (k - 1) as nat);
        }
    }
}

/// Linear search from a cursor behind which the target does not occur: the
/// run looks at every value that is left, is completed by the operation
/// after that and by none before, and reports no index.
pub proof fn lemma_scan_exhausts(s: Run, k: nat)
    requires
        scanning(s),
        forall|x: int| s.j <= x < s.values.len() ==> s.values[x] != s.search,
    ensures
        s.after(k).completed <==> k >= s.values.len() - s.j + 1,
        s.after(k).completed ==> s.after(k).search_result is None,
        s.after(k).values == s.values,
    decreases k,
{
    if k > 0 {
        if s.j == s.values.len() {
            s.next().lemma_completed_is_final((k - 1) as nat);
        } else {
            lemma_scan_exhausts(s.next(), (k - 1) as nat);
        }
    }
}

/// Linear search is exact where the target occurs: a run that started fresh
/// reports the first index `at` that holds the target, which is the only one
/// where the target occurs once. It is completed by its operation number
/// `at + 1` and by none before.
pub proof fn lemma_linear_search_finds(start: Run, at: nat, k: nat)
    requires
        start.is_fresh(),
        start.algorithm == Algorithm::LinearSearch,
        at < start.values.len(),
        start.values[at as int] == start.search,
        forall|x: int| 0 <= x < at ==> start.values[x] != start.search,
    ensures
        start.after(k).completed <==> k >= at + 1,
        start.after(k).completed ==> start.after(k).search_result == Some(at),
{
    lemma_scan_finds(start, at, k);
}

/// Linear search is exact where the target does not occur: a run that
/// started fresh on `n` values is completed by its operation number `n + 1`
/// and by none before, and reports no index.
pub proof fn lemma_linear_search_exhausts(start: Run, k: nat)
    requires
        start.is_fresh(),
        start.algorithm == Algorithm::LinearSearch,
        forall|x: int| 0 <= x < start.values.len() ==> start.values[x] != start.search,
    ensures
        start.after(k).completed <==> k >= start.values.len() + 1,
        start.after(k).completed ==> start.after(k).search_result is None,
{
    lemma_scan_exhausts(start, k);
}

/// With the upper bound set to the probed index, every operation on a run
/// that is not completed and whose interval is not empty either completes
/// the run or leaves at most half of the interval.
pub proof fn lemma_at_middle_shrinks(s: Run)
    requires
        s.algorithm == Algorithm::BinarySearch,
        s.upper_rule == UpperRule::AtMiddle,
        !s.completed,
        s.low < s.high,
    ensures
        s.next().completed || (s.next().low <= s.next().high && s.next().high - s.next().low <= (
        s.high - s.low) / 2),
{
}

/// With the upper bound set to the probed index, binary search always ends:
/// whatever the values and the target, a run on an interval of `m` indices
/// is completed within `ceil_log2(m + 1) + 1` operations.
pub proof fn lemma_at_middle_ends(s: Run)
    requires
        s.algorithm == Algorithm::BinarySearch,
        s.upper_rule == UpperRule::AtMiddle,
        s.low <= s.high,
    ensures
        s.after(ceil_log2((s.high - s.low + 1) as nat) + 1).completed,
    decreases s.high - s.low,
{
    let m = (s.high - s.low) as nat;
    let t = s.next();
    if s.completed {
        s.lemma_completed_is_final(ceil_log2(m + 1) + 1);
    } else if t.completed {
        t.lemma_completed_is_final(ceil_log2(m + 1));
    } else {
        lemma_at_middle_shrinks(s);
        let rest = (t.high - t.low) as nat;
        lemma_at_middle_ends(t);
        lemma_ceil_log2_grows(rest + 1, (m + 2) / 2);
        t.lemma_completed_stays(ceil_log2(rest + 1) + 1, ceil_log2(m + 1));
    }
}

/// With the upper bound set to the probed index, a probe that does not meet
/// the target leaves an interval that still holds it and is at most half as
/// long.
pub proof fn lemma_probe_halves(s: Run)
    requires
        closing_in(s),
        s.upper_rule == UpperRule::AtMiddle,
        s.values[midpoint(s.low, s.high) as int] != s.search,
    ensures
        closing_in(s.next()),
        s.next().high - s.next().low <= (s.high - s.low) / 2,
        s.next().values == s.values,
{
    let t = choose|t: int| s.low <= t < s.high && s.values[t] == s.search;
    let middle = midpoint(s.low, s.high) as int;
    assert(s.low <= middle < s.high);
    if s.values[middle] < s.search {
        assert(t > middle) by {
            if t <= middle {
                assert(s.values[t] <= s.values[middle]);
            }
        }
    } else {
        assert(t < middle) by {
            if t >= middle {
                assert(s.values[middle] <= s.values[t]);
            }
        }
    }
    assert(s.next().low <= t < s.next().high && s.next().values[t] == s.next().search);
}

/// With the upper bound set to the probed index, binary search on an
/// interval of `m` indices that holds the target is completed within
/// `ceil_log2(m) + 1` probes, and reports an index that holds the target.
pub proof fn lemma_closing_in_ends(s: Run)
    requires
        closing_in(s),
        s.upper_rule == UpperRule::AtMiddle,
    ensures
        ({
            let end = s.after(ceil_log2((s.high - s.low) as nat) + 1);
            &&& end.completed
            &&& end.search_result matches Some(r) && s.low <= r < s.high && s.values[r as int]
                == s.search
            &&& end.values == s.values
        }),
    decreases s.high - s.low,
{
    let m = (s.high - s.low) as nat;
    let middle = midpoint(s.low, s.high);
    if s.values[middle as int] == s.search {
        s.next().lemma_completed_is_final(ceil_log2(m));
    } else {
        lemma_probe_halves(s);
        let t = s.next();
        let rest = (t.high - t.low) as nat;
        lemma_closing_in_ends(t);
        lemma_ceil_log2_grows(rest, (m + 1) / 2);
        assert(m >= 2);
        assert(ceil_log2(rest) + 1 <= ceil_log2(m));
        t.lemma_completed_stays(ceil_log2(rest) + 1, ceil_log2(m));
    }
}

/// Binary search with the upper bound set to the probed index converges: on
/// a sorted array of `n` values that holds the target, a run that started
/// fresh is completed within `ceil_log2(n) + 1` probes and reports an index
/// that holds the target.
pub proof fn lemma_binary_search_converges(start: Run)
    requires
        start.is_fresh(),
        start.algorithm == Algorithm::BinarySearch,
        start.upper_rule == UpperRule::AtMiddle,
        sorted(start.values),
        exists|t: int| 0 <= t < start.values.len() && start.values[t] == start.search,
    ensures
        ({
            let end = start.after(ceil_log2(start.values.len()) + 1);
            &&& end.completed
            &&& end.search_result matches Some(r) && r < start.values.len() && start.values[r as int]
                == start.search
        }),
{
    let t = choose|t: int| 0 <= t < start.values.len() && start.values[t] == start.search;
    assert(start.low <= t < start.high && start.values[t] == start.search);
    lemma_closing_in_ends(start);
}

/// The upper bound one past the probed index can stall the search: on an
/// interval of one or two indices whose midpoint holds a value above the
/// target, no operation changes the bounds, and the run is never completed.
pub proof fn lemma_past_middle_stalls(s: Run, k: nat)
    requires
        s.algorithm == Algorithm::BinarySearch,
        s.upper_rule == UpperRule::PastMiddle,
        !s.completed,
        s.low < s.high <= s.low + 2,
        s.values[midpoint(s.low, s.high) as int] > s.search,
    ensures
        !s.after(k).completed,
        s.after(k).low == s.low,
        s.after(k).high == s.high,
    decreases k,
{
    if k > 0 {
        lemma_past_middle_stalls(s.next(), (k - 1) as nat);
    }
}

/// A binary search that is completed on a non-empty interval has met its
/// target at the index it reports, whatever the rule for the upper bound.
pub proof fn lemma_binary_search_match(start: Run, k: nat)
    requires
        start.algorithm == Algorithm::BinarySearch,
        !start.completed,
        start.wf(),
        start.after(k).completed,
        start.after(k).low < start.after(k).high,
    ensures
        start.after(k).search_result == Some(start.after(k).j),
        start.after(k).j < start.values.len(),
        start.values[start.after(k).j as int] == start.search,
    decreases k,
{
    if k > 0 {
        start.lemma_next_keeps();
        if start.next().completed {
            start.next().lemma_completed_is_final((k - 1) as nat);
        } else {
            lemma_binary_search_match(start.next(), (k - 1) as nat);
        }
    }
}

} // verus!
