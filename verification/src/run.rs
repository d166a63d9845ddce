//! The mathematical model of a run: its state and its elementary operations.

use vstd::prelude::*;

use crate::app::{Algorithm, UpperRule};

verus! {

/// The state of a run, as mathematics sees it.
pub struct Run {
    pub algorithm: Algorithm,
    pub upper_rule: UpperRule,
    pub values: Seq<usize>,
    pub search: usize,
    pub i: nat,
    pub j: nat,
    pub low: nat,
    pub high: nat,
    pub completed: bool,
    pub search_result: Option<nat>,
}

/// `values` with the items at `a` and `b` exchanged.
pub open spec fn swapped(values: Seq<usize>, a: int, b: int) -> Seq<usize> {
    values.update(a, values[b]).update(b, values[a])
}

/// The index that binary search probes in the interval from `low` to `high`.
pub open spec fn midpoint(low: nat, high: nat) -> nat {
    (low + (high - low) / 2) as nat
}

impl Run {
    /// A run that has not made any operation yet.
    pub open spec fn fresh(
        algorithm: Algorithm,
        upper_rule: UpperRule,
        values: Seq<usize>,
        search: usize,
    ) -> Run {
        Run {
            algorithm,
            upper_rule,
            values,
            search,
            i: 0,
            j: 0,
            low: 0,
            high: values.len(),
            completed: false,
            search_result: None,
        }
    }

    /// Whether the state is one that a fresh run starts in.
    pub open spec fn is_fresh(self) -> bool {
        self == Run::fresh(self.algorithm, self.upper_rule, self.values, self.search)
    }

    /// The bounds of binary search lie inside the array, in order.
    pub open spec fn wf(self) -> bool {
        self.algorithm == Algorithm::BinarySearch ==> self.low <= self.high <= self.values.len()
    }

    /// One operation of bubble sort: complete, compare two neighbours, or
    /// close a pass.
    pub open spec fn bubble_next(self) -> Run {
        let n = self.values.len();
        if self.i >= n {
            Run { completed: true, ..self }
        } else if self.j < n - self.i - 1 {
            let j = self.j as int;
            Run {
                values: if self.values[j] > self.values[j + 1] {
                    swapped(self.values, j, j + 1)
                } else {
                    self.values
                },
                j: self.j + 1,
                ..self
            }
        } else {
            Run { i: self.i + 1, j: 0, ..self }
        }
    }

    /// One operation of linear search: give up at the end, report a match,
    /// or move on.
    pub open spec fn linear_next(self) -> Run {
        if self.j >= self.values.len() {
            Run { completed: true, search_result: None, ..self }
        } else if self.values[self.j as int] == self.search {
            Run { completed: true, search_result: Some(self.j), ..self }
        } else {
            Run { j: self.j + 1, ..self }
        }
    }

    /// One operation of binary search: stop on an empty interval, or probe
    /// the midpoint and report a match or narrow the interval.
    pub open spec fn binary_next(self) -> Run {
        if self.low >= self.high {
            Run { completed: true, search_result: Some(self.j), ..self }
        } else {
            let middle = midpoint(self.low, self.high);
            let value = self.values[middle as int];
            if value == self.search {
                Run { j: middle, completed: true, search_result: Some(middle), ..self }
            } else if value < self.search {
                Run { j: middle, low: middle + 1, ..self }
            } else {
                Run {
                    j: middle,
                    high: match self.upper_rule {
                        UpperRule::PastMiddle => middle + 1,
                        UpperRule::AtMiddle => middle,
                    },
                    ..self
                }
            }
        }
    }

    /// The state after one elementary operation. A completed run stays as it
    /// is.
    pub open spec fn next(self) -> Run {
        if self.completed {
            self
        } else {
            match self.algorithm {
                Algorithm::BubbleSort => self.bubble_next(),
                Algorithm::QuickSort => self,
                Algorithm::BinarySearch => self.binary_next(),
                Algorithm::LinearSearch => self.linear_next(),
            }
        }
    }

    /// The state after `k` elementary operations.
    pub open spec fn after(self, k: nat) -> Run
        decreases k,
    {
        if k == 0 {
            self
        } else {
            self.next().after((k - 1) as nat)
        }
    }

    /// Operations add up: `a` of them and then `b` are `a + b` of them, so
    /// the state reached does not depend on how a budget is split over calls.
    pub proof fn lemma_after_add(self, a: nat, b: nat)
        ensures
            self.after(a).after(b) == self.after(a + b),
        decreases a,
    {
        if a > 0 {
            self.next().lemma_after_add((a - 1) as nat, b);
        }
    }

    /// The last of `k + 1` operations is made on the state after `k`.
    pub proof fn lemma_after_succ(self, k: nat)
        ensures
            self.after(k + 1) == self.after(k).next(),
    {
        self.lemma_after_add(k, 1);
        reveal_with_fuel(Run::after, 2);
    }

    /// Once a run is completed no further operation changes it.
    pub proof fn lemma_completed_is_final(self, k: nat)
        requires
            self.completed,
        ensures
            self.after(k) == self,
        decreases k,
    {
        if k > 0 {
            self.lemma_completed_is_final((k - 1) as nat);
        }
    }

    /// Completion is monotonic: a run completed after `a` operations is in
    /// the same state after any larger number of them.
    pub proof fn lemma_completed_stays(self, a: nat, b: nat)
        requires
            self.after(a).completed,
            a <= b,
        ensures
            self.after(b) == self.after(a),
    {
        self.lemma_after_add(a, (b - a) as nat);
        self.after(a).lemma_completed_is_final((b - a) as nat);
    }

    /// A quick sort run stands still: no operation changes it.
    pub proof fn lemma_quick_sort_stands(self, k: nat)
        requires
            self.algorithm == Algorithm::QuickSort,
        ensures
            self.after(k) == self,
        decreases k,
    {
        if k > 0 {
            self.lemma_quick_sort_stands((k - 1) as nat);
        }
    }

    /// Every operation keeps the bounds of binary search in order and inside
    /// the array, and leaves algorithm, rule, target and length alone.
    pub proof fn lemma_next_keeps(self)
        ensures
            self.next().algorithm == self.algorithm,
            self.next().upper_rule == self.upper_rule,
            self.next().search == self.search,
            self.next().values.len() == self.values.len(),
            self.wf() ==> self.next().wf(),
    {
    }

    /// What `lemma_next_keeps` says of one operation holds of any number.
    pub proof fn lemma_after_keeps(self, k: nat)
        ensures
            self.after(k).algorithm == self.algorithm,
            self.after(k).upper_rule == self.upper_rule,
            self.after(k).search == self.search,
            self.after(k).values.len() == self.values.len(),
            self.wf() ==> self.after(k).wf(),
        decreases k,
    {
        if k > 0 {
            self.lemma_next_keeps();
            self.next().lemma_after_keeps((k - 1) as nat);
        }
    }
}

} // verus!
