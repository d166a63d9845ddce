//! The executable state of a run and the steppers that advance it.

use std::time::{Duration, Instant};

use vstd::prelude::*;

use crate::host::{random_below, shuffle_in_place};
use crate::report::{Outcome, Report};
use crate::run::Run;

verus! {

/// The algorithm that a run executes.
#[derive(Clone, Copy, Debug, PartialEq, Eq, Structural)]
pub enum Algorithm {
    BubbleSort,
    /// Selectable, but its operations do nothing: such a run never advances
    /// and never completes.
    QuickSort,
    BinarySearch,
    LinearSearch,
}

/// How binary search moves its upper bound when the probed value is above
/// the target.
#[derive(Clone, Copy, Debug, PartialEq, Eq, Structural)]
pub enum UpperRule {
    /// `high = middle + 1`: the probed index stays inside the interval, so an
    /// interval of one or two indices may never shrink.
    PastMiddle,
    /// `high = middle`: the interval at least halves with every probe.
    AtMiddle,
}

/// How the host is to mark a bar.
#[derive(Clone, Copy, Debug, PartialEq, Eq, Structural)]
pub enum Highlight {
    /// The bar at the index that a search has reported.
    Found,
    /// The bar at the index that the algorithm looks at.
    Probe,
    /// Any other bar.
    Plain,
}

/// One bar of the chart: the value it stands for and how to mark it.
#[derive(Clone, Copy, Debug, PartialEq, Eq, Structural)]
pub struct Bar {
    pub value: usize,
    pub highlight: Highlight,
}

/// The length of the array that a newly selected run works on.
pub const ARRAY_LEN: usize = 100;

/// The numbers from 0 up to `n`, in order.
pub open spec fn ascending(n: nat) -> Seq<usize> {
    Seq::new(n, |k: int| k as usize)
}

/// Gives the array in its canonical order: the numbers from 0 up to `n`.
pub fn initialize(n: usize) -> (values: Vec<usize>)
    ensures
        values@ == ascending(n as nat),
{
    let mut values: Vec<usize> = Vec::new();
    let mut k: usize = 0;
    while k < n
        invariant
            k <= n,
            values@ == ascending(k as nat),
        decreases n - k,
    {
        values.push(k);
        k += 1;
    }
    values
}

/// The array, the selected algorithm and the progress of its run.
pub struct App {
    /// The array that is sorted or searched. Its length stays the same for
    /// the whole of a run.
    pub values: Vec<usize>,
    /// Whether the run has ended. No stepper changes a completed run.
    pub completed: bool,
    /// The value that the searches look for.
    pub search: usize,
    /// The index that a search has reported, if any.
    pub search_result: Option<usize>,
    /// The number of passes that bubble sort has closed: so many values at
    /// the end of the array are in their final places.
    pub i: usize,
    /// The index that the algorithm looks at: the left one of the two
    /// neighbours that bubble sort compares next, or the index that a search
    /// has probed last.
    pub j: usize,
    /// The first index of the interval that binary search still considers.
    pub low: usize,
    /// The index behind the last one of that interval.
    pub high: usize,
    /// The reading of the clock at the first call of a stepper on the run.
    pub algo_started: Option<Instant>,
    /// The time from that reading to the completion of the run.
    pub algo_duration: Option<Duration>,
    /// The algorithm of the run.
    pub algorithm: Algorithm,
    /// How binary search moves its upper bound.
    pub upper_rule: UpperRule,
}

impl View for App {
    type V = Run;

    open spec fn view(&self) -> Run {
        Run {
            algorithm: self.algorithm,
            upper_rule: self.upper_rule,
            values: self.values@,
            search: self.search,
            i: self.i as nat,
            j: self.j as nat,
            low: self.low as nat,
            high: self.high as nat,
            completed: self.completed,
            search_result: match self.search_result {
                Some(index) => Some(index as nat),
                None => None,
            },
        }
    }
}

impl App {
    /// The bounds of binary search lie inside the array, in order.
    pub open spec fn wf(&self) -> bool {
        self@.wf()
    }

    /// Tells whether the bounds of binary search lie inside the array, in
    /// order: what the steppers ask of the state they are called on.
    pub fn bounds_in_order(&self) -> (in_order: bool)
        ensures
            in_order == self.wf(),
    {
        match self.algorithm {
            Algorithm::BinarySearch => self.low <= self.high && self.high <= self.values.len(),
            _ => true,
        }
    }

    /// How the completed run has ended. Binary search that stops on an empty
    /// interval has not met its target, whatever index it probed last.
    pub open spec fn outcome(&self) -> Outcome {
        match self.algorithm {
            Algorithm::BubbleSort | Algorithm::QuickSort => Outcome::Sorted,
            Algorithm::LinearSearch => match self.search_result {
                Some(index) => Outcome::Found(index),
                None => Outcome::NotFound,
            },
            Algorithm::BinarySearch => if self.low < self.high {
                Outcome::Found(self.j)
            } else {
                Outcome::NotFound
            },
        }
    }

    /// How a stepper called on `self` leaves the clock fields in `then`: the
    /// start is taken once, by the first call on a run that is not completed,
    /// and the duration once, by the call that completes the run.
    pub open spec fn clock_follows(&self, then: &App) -> bool {
        if self.completed {
            then.algo_started == self.algo_started && then.algo_duration == self.algo_duration
        } else {
            &&& then.algo_started is Some
            &&& self.algo_started is Some ==> then.algo_started == self.algo_started
            &&& if then.completed {
                then.algo_duration is Some
            } else {
                then.algo_duration == self.algo_duration
            }
        }
    }

    /// What a stepper called on `self` hands out when it leaves `then`: a
    /// report by the call that completes the run, and by no other.
    pub open spec fn reports(&self, then: &App, report: Option<Report>) -> bool {
        match report {
            Some(r) => {
                &&& !self.completed && then.completed
                &&& r.algorithm == then.algorithm
                &&& r.target == then.search
                &&& r.outcome == then.outcome()
                &&& then.algo_duration == Some(r.elapsed)
            },
            None => self.completed || !then.completed,
        }
    }

    /// The state in which the host starts: the canonical array, bubble sort
    /// selected, no target that any value could meet.
    pub fn new() -> (app: App)
        ensures
            app@ == Run::fresh(
                Algorithm::BubbleSort,
                UpperRule::PastMiddle,
                ascending(ARRAY_LEN as nat),
                usize::MAX,
            ),
            app.algo_started is None,
            app.algo_duration is None,
            app.wf(),
    {
        let values = initialize(ARRAY_LEN);
        let high = values.len();
        App {
            values,
            completed: false,
            search: usize::MAX,
            search_result: None,
            i: 0,
            j: 0,
            low: 0,
            high,
            algo_started: None,
            algo_duration: None,
            algorithm: Algorithm::BubbleSort,
            upper_rule: UpperRule::PastMiddle,
        }
    }

    /// Starts a new run of `algorithm` on the canonical array. The target and
    /// the rule for the upper bound stay as they are.
    pub fn set_algorithm(&mut self, algorithm: Algorithm)
        ensures
            final(self)@ == Run::fresh(
                algorithm,
                old(self).upper_rule,
                ascending(ARRAY_LEN as nat),
                old(self).search,
            ),
            final(self).algo_started is None,
            final(self).algo_duration is None,
            final(self).wf(),
    {
        self.algorithm = algorithm;
        self.completed = false;
        self.values = initialize(ARRAY_LEN);
        self.algo_started = None;
        self.algo_duration = None;
        self.search_result = None;
        self.i = 0;
        self.j = 0;
        self.low = 0;
        self.high = self.values.len();
    }

    /// Starts a new run of `algorithm` that looks for `target` on the
    /// canonical array.
    pub fn start(&mut self, algorithm: Algorithm, target: usize)
        ensures
            final(self)@ == Run::fresh(
                algorithm,
                old(self).upper_rule,
                ascending(ARRAY_LEN as nat),
                target,
            ),
            final(self).algo_started is None,
            final(self).algo_duration is None,
            final(self).wf(),
    {
        self.search = target;
        self.set_algorithm(algorithm);
    }

    /// Puts the values in an order that depends on chance. Nothing else
    /// changes.
    pub fn scramble_values(&mut self)
        ensures
            final(self).values@.to_multiset() == old(self).values@.to_multiset(),
            final(self).values@.len() == old(self).values@.len(),
            final(self)@ == (Run { values: final(self).values@, ..old(self)@ }),
            final(self).algo_started == old(self).algo_started,
            final(self).algo_duration == old(self).algo_duration,
            old(self).wf() ==> final(self).wf(),
    {
        shuffle_in_place(&mut self.values);
        proof {
            old(self).values@.to_multiset_ensures();
            self.values@.to_multiset_ensures();
        }
    }

    /// Selects `algorithm` as the host's keys do: a sort starts on the
    /// scrambled array with the target it finds, a search starts on the
    /// canonical array with a target drawn from its values.
    pub fn select(&mut self, algorithm: Algorithm)
        ensures
            final(self)@.is_fresh(),
            final(self).algorithm == algorithm,
            final(self).upper_rule == old(self).upper_rule,
            final(self).values@.to_multiset() == ascending(ARRAY_LEN as nat).to_multiset(),
            final(self).values@.len() == ARRAY_LEN,
            final(self).algo_started is None,
            final(self).algo_duration is None,
            final(self).wf(),
            match algorithm {
                Algorithm::BubbleSort | Algorithm::QuickSort => final(self).search == old(
                    self,
                ).search,
                Algorithm::BinarySearch | Algorithm::LinearSearch => final(self).values@
                    == ascending(ARRAY_LEN as nat) && final(self).search < ARRAY_LEN,
            },
    {
        match algorithm {
            Algorithm::BubbleSort | Algorithm::QuickSort => {
                self.set_algorithm(algorithm);
                self.scramble_values();
            },
            Algorithm::BinarySearch | Algorithm::LinearSearch => {
                let target = random_below(ARRAY_LEN);
                self.start(algorithm, target);
            },
        }
    }

    /// How the bar at index `x` is to be marked: the reported index wins over
    /// the probed one.
    pub open spec fn highlight_at(&self, x: int) -> Highlight {
        if self.search_result matches Some(index) && index == x {
            Highlight::Found
        } else if x == self.j {
            Highlight::Probe
        } else {
            Highlight::Plain
        }
    }

    /// Gives the chart of the array for the host to draw: one bar for each
    /// value, in order.
    pub fn render(&self) -> (bars: Vec<Bar>)
        ensures
            bars@.len() == self.values@.len(),
            forall|x: int|
                0 <= x < bars@.len() ==> #[trigger] bars@[x] == (Bar {
                    value: self.values@[x],
                    highlight: self.highlight_at(x),
                }),
    {
        let mut bars: Vec<Bar> = Vec::new();
        let mut x: usize = 0;
        while x < self.values.len()
            invariant
                x <= self.values@.len(),
                bars@.len() == x,
                forall|y: int|
                    0 <= y < x ==> #[trigger] bars@[y] == (Bar {
                        value: self.values@[y],
                        highlight: self.highlight_at(y),
                    }),
            decreases self.values@.len() - x,
        {
            let reported = match self.search_result {
                Some(index) => index == x,
                None => false,
            };
            let highlight = if reported {
                Highlight::Found
            } else if x == self.j {
                Highlight::Probe
            } else {
                Highlight::Plain
            };
            bars.push(Bar { value: self.values[x], highlight });
            x += 1;
        }
        bars
    }

    /// Marks the run completed, takes the elapsed time and writes the report.
    fn conclude(&mut self, outcome: Outcome) -> (report: Option<Report>)
        requires
            !old(self).completed,
            old(self).algo_started is Some,
        ensures
            final(self).completed,
            report matches Some(r) && r.algorithm == old(self).algorithm && r.target == old(
                self,
            ).search && r.outcome == outcome && final(self).algo_duration == Some(r.elapsed),
            final(self).values == old(self).values,
            final(self).search == old(self).search,
            final(self).search_result == old(self).search_result,
            final(self).i == old(self).i,
            final(self).j == old(self).j,
            final(self).low == old(self).low,
            final(self).high == old(self).high,
            final(self).algo_started == old(self).algo_started,
            final(self).algorithm == old(self).algorithm,
            final(self).upper_rule == old(self).upper_rule,
    {
        self.completed = true;
        match self.algo_started {
            Some(start) => {
                let elapsed = start.elapsed();
                self.algo_duration = Some(elapsed);
                Some(Report { algorithm: self.algorithm, target: self.search, outcome, elapsed })
            },
            None => None,
        }
    }

    /// Advances binary search by up to `steps` probes.
    pub fn binary_search(&mut self, steps: usize) -> (report: Option<Report>)
        requires
            old(self).algorithm == Algorithm::BinarySearch,
            old(self).wf(),
        ensures
            final(self)@ == old(self)@.after(steps as nat),
            final(self).wf(),
            old(self).completed ==> *final(self) == *old(self),
            old(self).clock_follows(final(self)),
            old(self).reports(final(self), report),
    {
        if self.completed {
            proof {
                self@.lemma_completed_is_final(steps as nat);
            }
            return None;
        }
        if self.algo_started.is_none() {
            self.algo_started = Some(Instant::now());
        }
        let mut done: usize = 0;
        while done < steps
            invariant
                done <= steps,
                !self.completed,
                self.algorithm == Algorithm::BinarySearch,
                self.wf(),
                self@ == old(self)@.after(done as nat),
                self.algo_started is Some,
                old(self).algo_started is Some ==> self.algo_started == old(self).algo_started,
                self.algo_duration == old(self).algo_duration,
                !old(self).completed,
            decreases steps - done,
        {
            proof {
                old(self)@.lemma_after_succ(done as nat);
            }
            if self.low >= self.high {
                self.search_result = Some(self.j);
                let report = self.conclude(Outcome::NotFound);
                proof {
                    old(self)@.lemma_completed_stays((done + 1) as nat, steps as nat);
                }
                return report;
            }
            let middle = self.low + (self.high - self.low) / 2;
            self.j = middle;
            let value = self.values[middle];
            if value == self.search {
                self.search_result = Some(middle);
                let report = self.conclude(Outcome::Found(middle));
                proof {
                    old(self)@.lemma_completed_stays((done + 1) as nat, steps as nat);
                }
                return report;
            } else if value < self.search {
                self.low = middle + 1;
            } else {
                match self.upper_rule {
                    UpperRule::PastMiddle => {
                        self.high = middle + 1;
                    },
                    UpperRule::AtMiddle => {
                        self.high = middle;
                    },
                }
            }
            done += 1;
        }
        None
    }

    /// Advances linear search by up to `steps` operations.
    pub fn linear_search(&mut self, steps: usize) -> (report: Option<Report>)
        requires
            old(self).algorithm == Algorithm::LinearSearch,
        ensures
            final(self)@ == old(self)@.after(steps as nat),
            old(self).completed ==> *final(self) == *old(self),
            old(self).clock_follows(final(self)),
            old(self).reports(final(self), report),
    {
        if self.completed {
            proof {
                self@.lemma_completed_is_final(steps as nat);
            }
            return None;
        }
        if self.algo_started.is_none() {
            self.algo_started = Some(Instant::now());
        }
        let mut done: usize = 0;
        while done < steps
            invariant
                done <= steps,
                !self.completed,
                self.algorithm == Algorithm::LinearSearch,
                self@ == old(self)@.after(done as nat),
                self.algo_started is Some,
                old(self).algo_started is Some ==> self.algo_started == old(self).algo_started,
                self.algo_duration == old(self).algo_duration,
                !old(self).completed,
            decreases steps - done,
        {
            proof {
                old(self)@.lemma_after_succ(done as nat);
            }
            if self.j < self.values.len() {
                if self.values[self.j] == self.search {
                    self.search_result = Some(self.j);
                    let report = self.conclude(Outcome::Found(self.j));
                    proof {
                        old(self)@.lemma_completed_stays((done + 1) as nat, steps as nat);
                    }
                    return report;
                } else {
                    self.j += 1;
                }
            } else {
                self.search_result = None;
                let report = self.conclude(Outcome::NotFound);
                proof {
                    old(self)@.lemma_completed_stays((done + 1) as nat, steps as nat);
                }
                return report;
            }
            done += 1;
        }
        None
    }

    /// Advances bubble sort by up to `steps` operations.
    pub fn bubble_sort(&mut self, steps: usize) -> (report: Option<Report>)
        requires
            old(self).algorithm == Algorithm::BubbleSort,
        ensures
            final(self)@ == old(self)@.after(steps as nat),
            old(self).completed ==> *final(self) == *old(self),
            old(self).clock_follows(final(self)),
            old(self).reports(final(self), report),
    {
        if self.completed {
            proof {
                self@.lemma_completed_is_final(steps as nat);
            }
            return None;
        }
        if self.algo_started.is_none() {
            self.algo_started = Some(Instant::now());
        }
        let mut done: usize = 0;
        while done < steps
            invariant
                done <= steps,
                !self.completed,
                self.algorithm == Algorithm::BubbleSort,
                self@ == old(self)@.after(done as nat),
                self.algo_started is Some,
                old(self).algo_started is Some ==> self.algo_started == old(self).algo_started,
                self.algo_duration == old(self).algo_duration,
                !old(self).completed,
            decreases steps - done,
        {
            proof {
                old(self)@.lemma_after_succ(done as nat);
            }
            if self.i < self.values.len() {
                if self.j < self.values.len() - self.i - 1 {
                    let left = self.values[self.j];
                    let right = self.values[self.j + 1];
                    if left > right {
                        self.values[self.j] = right;
                        self.values[self.j + 1] = left;
                    }
                    self.j += 1;
                } else {
                    self.j = 0;
                    self.i += 1;
                }
            } else {
                let report = self.conclude(Outcome::Sorted);
                proof {
                    old(self)@.lemma_completed_stays((done + 1) as nat, steps as nat);
                }
                return report;
            }
            done += 1;
        }
        None
    }

    /// Quick sort is selectable but not carried out: the call changes
    /// nothing, whatever the budget.
    pub fn quick_sort(&mut self, steps: usize) -> (report: Option<Report>)
        requires
            old(self).algorithm == Algorithm::QuickSort,
        ensures
            *final(self) == *old(self),
            final(self)@ == old(self)@.after(steps as nat),
            report is None,
    {
        proof {
            self@.lemma_quick_sort_stands(steps as nat);
        }
        None
    }

    /// Advances the run by up to `steps` elementary operations of its
    /// algorithm and stops early when the run completes. On a completed run
    /// the call changes nothing.
    pub fn step(&mut self, steps: usize) -> (report: Option<Report>)
        requires
            old(self).wf(),
        ensures
            final(self)@ == old(self)@.after(steps as nat),
            final(self).wf(),
            old(self).completed || old(self).algorithm == Algorithm::QuickSort ==> *final(self)
                == *old(self),
            old(self).algorithm != Algorithm::QuickSort ==> old(self).clock_follows(final(self)),
            old(self).reports(final(self), report),
    {
        if self.completed {
            proof {
                self@.lemma_completed_is_final(steps as nat);
            }
            return None;
        }
        proof {
            self@.lemma_after_keeps(steps as nat);
        }
        match self.algorithm {
            Algorithm::BubbleSort => self.bubble_sort(steps),
            Algorithm::QuickSort => self.quick_sort(steps),
            Algorithm::BinarySearch => self.binary_search(steps),
            Algorithm::LinearSearch => self.linear_search(steps),
        }
    }

    /// One tick of the host: advances the run by one elementary operation.
    pub fn update(&mut self) -> (report: Option<Report>)
        requires
            old(self).wf(),
        ensures
            final(self)@ == old(self)@.next(),
            final(self).wf(),
            old(self).completed || old(self).algorithm == Algorithm::QuickSort ==> *final(self)
                == *old(self),
            old(self).algorithm != Algorithm::QuickSort ==> old(self).clock_follows(final(self)),
            old(self).reports(final(self), report),
    {
        proof {
            reveal_with_fuel(Run::after, 2);
        }
        self.step(1)
    }
}

} // verus!
