//! What holds of bubble sort: why a run ends with its values in order, and
//! after how many operations.

use vstd::prelude::*;

use crate::app::Algorithm;
use crate::run::{swapped, Run};

verus! {

/// No value is followed by a smaller one.
pub open spec fn sorted(values: Seq<usize>) -> bool {
    forall|a: int, b: int| 0 <= a <= b < values.len() ==> values[a] <= values[b]
}

/// The operations that `m` passes take when the first of them still has `m`
/// values to go through: a pass over `p` values makes `p - 1` comparisons and
/// one more operation to close.
pub open spec fn pass_operations(m: nat) -> nat
    decreases m,
{
    if m == 0 {
        0
    } else {
        m + pass_operations((m - 1) as nat)
    }
}

/// The comparisons among `pass_operations(m)`.
pub open spec fn pass_comparisons(m: nat) -> nat
    decreases m,
{
    if m == 0 {
        0
    } else {
        (m - 1) as nat + pass_comparisons((m - 1) as nat)
    }
}

/// What every state of a bubble sort run satisfies: the cursors are in
/// range, the `i` last values are in their final places, and the value under
/// the inner cursor is the largest that the current pass has met.
pub open spec fn bubble_inv(s: Run) -> bool {
    let n = s.values.len();
    &&& s.algorithm == Algorithm::BubbleSort
    &&& s.i <= n
    &&& s.i < n ==> s.j < n - s.i
    &&& s.i == n ==> s.j == 0
    &&& s.completed ==> s.i == n
    &&& forall|a: int, b: int| 0 <= a < b < n && n - s.i <= b ==> s.values[a] <= s.values[b]
    &&& forall|a: int| 0 <= a < s.j ==> #[trigger] s.values[a] <= s.values[s.j as int]
}

/// The operations that a bubble sort run in state `s` still has to make to
/// be completed.
pub open spec fn operations_left(s: Run) -> nat {
    if s.completed {
        0
    } else {
        (pass_operations((s.values.len() - s.i) as nat) - s.j + 1) as nat
    }
}

/// The comparisons that a bubble sort run in state `s` still has to make.
pub open spec fn comparisons_left(s: Run) -> nat {
    if s.completed {
        0
    } else {
        (pass_comparisons((s.values.len() - s.i) as nat) - s.j) as nat
    }
}

/// Whether the next operation of `s` compares two neighbours.
pub open spec fn compares(s: Run) -> bool {
    &&& s.algorithm == Algorithm::BubbleSort
    &&& !s.completed
    &&& s.i < s.values.len()
    &&& s.j < s.values.len() - s.i - 1
}

/// How many of the next `k` operations of `s` compare two neighbours.
pub open spec fn comparisons(s: Run, k: nat) -> nat
    decreases k,
{
    if k == 0 {
        0
    } else {
        (if compares(s) {
            1nat
        } else {
            0nat
        }) + comparisons(s.next(), (k - 1) as nat)
    }
}

/// Exchanging two items keeps the items.
pub proof fn lemma_swapped_keeps_items(values: Seq<usize>, a: int, b: int)
    requires
        0 <= a < values.len(),
        0 <= b < values.len(),
    ensures
        swapped(values, a, b).to_multiset() == values.to_multiset(),
        swapped(values, a, b).len() == values.len(),
{
    broadcast use vstd::seq_lib::to_multiset_update;

    values.to_multiset_ensures();
    let first = values.update(a, values[b]);
    assert(first.to_multiset() == values.to_multiset().insert(values[b]).remove(values[a]));
    assert(swapped(values, a, b).to_multiset() == first.to_multiset().insert(values[a]).remove(
        first[b],
    ));
    assert(swapped(values, a, b).to_multiset() =~= values.to_multiset());
}

/// `pass_operations` and `pass_comparisons` in closed form.
pub proof fn lemma_pass_counts(m: nat)
    ensures
        pass_operations(m) == m * (m + 1) / 2,
        pass_comparisons(m) == m * (m - 1) / 2,
        pass_operations(m) == pass_comparisons(m) + m,
    decreases m,
{
    if m > 0 {
        lemma_pass_counts((m - 1) as nat);
        assert(m * (m + 1) / 2 == m + (m - 1) * m / 2) by (nonlinear_arith)
            requires
                m >= 1,
        ;
        assert(m * (m - 1) / 2 == (m - 1) + (m - 1) * (m - 2) / 2) by (nonlinear_arith)
            requires
                m >= 1,
        ;
        assert((m - 1) * ((m - 1) + 1) == (m - 1) * m) by (nonlinear_arith);
        assert((m - 1) * ((m - 1) - 1) == (m - 1) * (m - 2)) by (nonlinear_arith);
    } else {
        assert(0 * (0 + 1) / 2 == 0) by (nonlinear_arith);
        assert(0 * (0 - 1) / 2 == 0) by (nonlinear_arith);
    }
}

/// One operation of bubble sort keeps what `bubble_inv` says and the items,
/// does not touch the `i` last values, and brings the run one operation
/// nearer to its end.
pub proof fn lemma_bubble_next(s: Run)
    requires
        bubble_inv(s),
    ensures
        bubble_inv(s.next()),
        s.next().values.to_multiset() == s.values.to_multiset(),
        forall|b: int|
            s.values.len() - s.i <= b < s.values.len() ==> s.next().values[b] == s.values[b],
        !s.completed ==> operations_left(s.next()) + 1 == operations_left(s),
        comparisons_left(s.next()) + (if compares(s) {
            1nat
        } else {
            0nat
        }) == comparisons_left(s),
{
    let n = s.values.len();
    let t = s.next();
    if !s.completed && s.i < n {
        lemma_pass_counts((n - s.i) as nat);
        lemma_pass_counts((n - s.i - 1) as nat);
        if s.j < n - s.i - 1 {
            let j = s.j as int;
            if s.values[j] > s.values[j + 1] {
                lemma_swapped_keeps_items(s.values, j, j + 1);
            }
            assert(t.values[j] <= t.values[j + 1]);
            assert forall|a: int| 0 <= a < t.j implies #[trigger] t.values[a] <= t.values[t.j as int] by {
                if a < j {
                    assert(s.values[a] <= s.values[j]);
                }
            }
            assert forall|a: int, b: int| 0 <= a < b < n && n - t.i <= b implies t.values[a]
                <= t.values[b] by {
                assert(t.values[b] == s.values[b]);
                if a == j {
                    assert(s.values[j] <= s.values[b] && s.values[j + 1] <= s.values[b]);
                } else if a == j + 1 {
                    assert(s.values[j] <= s.values[b] && s.values[j + 1] <= s.values[b]);
                } else {
                    assert(t.values[a] == s.values[a]);
                }
            }
        } else {
            assert forall|a: int, b: int| 0 <= a < b < n && n - t.i <= b implies t.values[a]
                <= t.values[b] by {
                if b == n - s.i - 1 {
                    assert(s.values[a] <= s.values[s.j as int]);
                }
            }
        }
    }
}

/// From a state that satisfies `bubble_inv`, any number of operations keeps
/// it and the items; the run is completed exactly when it has made the
/// operations that were left, and by then it has made the comparisons that
/// were left.
pub proof fn lemma_bubble_after(s: Run, k: nat)
    requires
        bubble_inv(s),
    ensures
        bubble_inv(s.after(k)),
        s.after(k).values.to_multiset() == s.values.to_multiset(),
        s.after(k).completed <==> k >= operations_left(s),
        k >= operations_left(s) ==> comparisons(s, k) == comparisons_left(s),
        k <= operations_left(s) ==> operations_left(s.after(k)) + k == operations_left(s),
    decreases k,
{
    if k > 0 {
        lemma_bubble_next(s);
        lemma_bubble_after(s.next(), (k - 1) as nat);
    }
}

/// A completed bubble sort run has its values in order.
pub proof fn lemma_bubble_completed_sorted(s: Run)
    requires
        bubble_inv(s),
        s.completed,
    ensures
        sorted(s.values),
{
}

/// Bubble sort sorts: after any number of operations of a run that started
/// fresh the values are those it started with, each as often as before, and
/// once the run is completed no value is followed by a smaller one.
pub proof fn lemma_bubble_sort_sorts(start: Run, k: nat)
    requires
        start.is_fresh(),
        start.algorithm == Algorithm::BubbleSort,
    ensures
        start.after(k).values.to_multiset() == start.values.to_multiset(),
        start.after(k).values.len() == start.values.len(),
        start.after(k).completed ==> sorted(start.after(k).values),
{
    lemma_bubble_after(start, k);
    start.lemma_after_keeps(k);
    if start.after(k).completed {
        lemma_bubble_completed_sorted(start.after(k));
    }
}

/// The length of a bubble sort run: on `n` values a run that started fresh
/// is completed by its operation number `n * (n - 1) / 2 + n + 1` and by none
/// before, however the operations are spread over calls. Of these,
/// `n * (n - 1) / 2` compare two neighbours, `n` close a pass and the last
/// one completes the run.
pub proof fn lemma_bubble_sort_length(start: Run, k: nat)
    requires
        start.is_fresh(),
        start.algorithm == Algorithm::BubbleSort,
    ensures
        ({
            let n = start.values.len();
            &&& start.after(k).completed <==> k >= n * (n - 1) / 2 + n + 1
            &&& k >= n * (n - 1) / 2 + n + 1 ==> comparisons(start, k) == n * (n - 1) / 2
        }),
{
    lemma_bubble_after(start, k);
    lemma_pass_counts(start.values.len());
}

} // verus!
