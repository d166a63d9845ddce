use std::time::Duration;

use lasalgo::app::{initialize, Algorithm, App, Bar, Highlight, UpperRule, ARRAY_LEN};
use lasalgo::report::{decimal_text, Outcome, Report};

fn assert_fresh(app: &App) {
    assert!(!app.completed);
    assert_eq!(app.search_result, None);
    assert_eq!((app.i, app.j, app.low, app.high), (0, 0, 0, app.values.len()));
    assert!(app.algo_started.is_none());
    assert!(app.algo_duration.is_none());
}

fn sorted_copy(values: &[usize]) -> Vec<usize> {
    let mut copy = values.to_vec();
    copy.sort();
    copy
}

#[test]
fn initialize_counts_up_from_zero() {
    assert_eq!(initialize(0), Vec::<usize>::new());
    assert_eq!(initialize(1), vec![0]);
    assert_eq!(initialize(5), vec![0, 1, 2, 3, 4]);
    assert_eq!(initialize(100).len(), 100);
    assert_eq!(initialize(100)[99], 99);
}

#[test]
fn new_state_is_a_fresh_bubble_sort() {
    let app = App::new();
    assert_eq!(ARRAY_LEN, 100);
    assert_eq!(app.values, initialize(100));
    assert_eq!(app.algorithm, Algorithm::BubbleSort);
    assert_eq!(app.upper_rule, UpperRule::PastMiddle);
    assert_eq!(app.search, usize::MAX);
    assert_fresh(&app);
    assert!(app.bounds_in_order());
}

#[test]
fn set_algorithm_starts_over() {
    let mut app = App::new();
    app.scramble_values();
    app.step(1234);
    app.search = 17;
    app.upper_rule = UpperRule::AtMiddle;
    for algorithm in [
        Algorithm::LinearSearch,
        Algorithm::BinarySearch,
        Algorithm::QuickSort,
        Algorithm::BubbleSort,
    ] {
        app.set_algorithm(algorithm);
        assert_eq!(app.algorithm, algorithm);
        assert_eq!(app.values, initialize(100));
        assert_eq!(app.search, 17);
        assert_eq!(app.upper_rule, UpperRule::AtMiddle);
        assert_fresh(&app);
        app.step(10_000);
    }
}

#[test]
fn set_algorithm_restores_the_length() {
    let mut app = App::new();
    app.values = vec![2, 1];
    app.high = 2;
    app.step(5);
    assert!(app.completed);
    app.set_algorithm(Algorithm::BinarySearch);
    assert_eq!(app.values.len(), 100);
    assert_eq!(app.high, 100);
    assert_fresh(&app);
}

#[test]
fn scramble_keeps_the_values_and_the_run() {
    let mut app = App::new();
    app.search = 5;
    app.step(3);
    let (i, j, started) = (app.i, app.j, app.algo_started);
    app.scramble_values();
    assert_eq!(sorted_copy(&app.values), initialize(100));
    assert_eq!((app.i, app.j, app.low, app.high), (i, j, 0, 100));
    assert_eq!(app.algo_started, started);
    assert_eq!(app.search, 5);
    assert_eq!(app.algorithm, Algorithm::BubbleSort);
    assert!(!app.completed);
}

#[test]
fn scramble_changes_the_order() {
    let mut app = App::new();
    let mut changed = false;
    for _ in 0..5 {
        app.set_algorithm(Algorithm::BubbleSort);
        app.scramble_values();
        changed = changed || app.values != initialize(100);
    }
    assert!(changed);
}

#[test]
fn scramble_keeps_equal_values() {
    let mut app = App::new();
    app.values = vec![3, 3, 1, 1, 1, 0];
    app.high = 6;
    app.scramble_values();
    assert_eq!(sorted_copy(&app.values), vec![0, 1, 1, 1, 3, 3]);
}

#[test]
fn scramble_gives_every_order_about_as_often() {
    let orders: [[usize; 3]; 6] =
        [[0, 1, 2], [0, 2, 1], [1, 0, 2], [1, 2, 0], [2, 0, 1], [2, 1, 0]];
    let trials = 12_000;
    let mut counts = [0usize; 6];
    let mut app = App::new();
    for _ in 0..trials {
        app.values = vec![0, 1, 2];
        app.scramble_values();
        let at = orders.iter().position(|order| order[..] == app.values[..]).unwrap();
        counts[at] += 1;
    }
    let expected = trials as f64 / 6.0;
    let mut chi_square = 0.0;
    for count in counts {
        let off = count as f64 - expected;
        chi_square += off * off / expected;
    }
    // Five degrees of freedom: a fair shuffle stays below 40 but for about
    // one run in ten million.
    assert!(chi_square < 40.0, "counts {:?}", counts);
}

#[test]
fn select_starts_a_sort_on_scrambled_values() {
    let mut app = App::new();
    app.search = 44;
    for algorithm in [Algorithm::BubbleSort, Algorithm::QuickSort] {
        app.select(algorithm);
        assert_eq!(app.algorithm, algorithm);
        assert_eq!(app.search, 44);
        assert_eq!(sorted_copy(&app.values), initialize(100));
        assert_fresh(&app);
    }
}

#[test]
fn select_starts_a_search_for_one_of_the_values() {
    let mut app = App::new();
    app.upper_rule = UpperRule::AtMiddle;
    let mut drawn = Vec::new();
    for round in 0..40 {
        let algorithm =
            if round % 2 == 0 { Algorithm::LinearSearch } else { Algorithm::BinarySearch };
        app.select(algorithm);
        assert_eq!(app.algorithm, algorithm);
        assert_eq!(app.upper_rule, UpperRule::AtMiddle);
        assert_eq!(app.values, initialize(100));
        assert!(app.search < 100);
        assert_fresh(&app);
        drawn.push(app.search);
        let report = app.step(1000).unwrap();
        assert_eq!(report.outcome, Outcome::Found(app.search));
        assert_eq!(app.search_result, Some(app.search));
    }
    drawn.dedup();
    assert!(drawn.len() > 1);
}

#[test]
fn render_gives_one_bar_for_each_value() {
    let mut app = App::new();
    app.values = vec![3, 1, 4, 0, 2];
    app.high = 5;
    app.j = 2;
    let bars = app.render();
    let plain = |value| Bar { value, highlight: Highlight::Plain };
    assert_eq!(
        bars,
        vec![plain(3), plain(1), Bar { value: 4, highlight: Highlight::Probe }, plain(0), plain(2)]
    );
    assert_eq!(app.values, vec![3, 1, 4, 0, 2]);
}

#[test]
fn render_marks_the_found_index_before_the_probe() {
    let mut app = App::new();
    app.values = vec![7, 8, 9];
    app.high = 3;
    app.j = 1;
    app.search_result = Some(1);
    let bars = app.render();
    assert_eq!(bars[0].highlight, Highlight::Plain);
    assert_eq!(bars[1].highlight, Highlight::Found);
    assert_eq!(bars[2].highlight, Highlight::Plain);
    app.search_result = Some(2);
    let bars = app.render();
    assert_eq!(bars[1].highlight, Highlight::Probe);
    assert_eq!(bars[2].highlight, Highlight::Found);
    app.j = 3;
    app.search_result = Some(3);
    let bars = app.render();
    assert!(bars.iter().all(|bar| bar.highlight == Highlight::Plain));
}

#[test]
fn render_of_no_values() {
    let mut app = App::new();
    app.values = vec![];
    app.high = 0;
    assert_eq!(app.render(), Vec::<Bar>::new());
}

#[test]
fn render_follows_a_search() {
    let mut app = App::new();
    app.search = 2;
    app.set_algorithm(Algorithm::LinearSearch);
    app.step(2);
    assert_eq!(app.render()[2].highlight, Highlight::Probe);
    app.step(1);
    assert_eq!(app.render()[2].highlight, Highlight::Found);
    assert_eq!(app.render()[2].value, 2);
}

#[test]
fn bounds_in_order_tells_when_binary_search_may_step() {
    let mut app = App::new();
    app.set_algorithm(Algorithm::BinarySearch);
    assert!(app.bounds_in_order());
    app.high = 101;
    assert!(!app.bounds_in_order());
    app.high = 50;
    app.low = 51;
    assert!(!app.bounds_in_order());
    app.algorithm = Algorithm::LinearSearch;
    assert!(app.bounds_in_order());
}

#[test]
fn decimal_text_writes_numbers() {
    assert_eq!(decimal_text(0), "0");
    assert_eq!(decimal_text(7), "7");
    assert_eq!(decimal_text(10), "10");
    assert_eq!(decimal_text(1234567890), "1234567890");
    assert_eq!(decimal_text(usize::MAX), usize::MAX.to_string());
}

#[test]
fn report_line_of_a_sort() {
    let report = Report {
        algorithm: Algorithm::BubbleSort,
        target: usize::MAX,
        outcome: Outcome::Sorted,
        elapsed: Duration::from_millis(1500),
    };
    assert_eq!(report.line(), "Bubble Sort completed in 1.50s");
}

#[test]
fn report_line_of_a_search() {
    let found = Report {
        algorithm: Algorithm::LinearSearch,
        target: 42,
        outcome: Outcome::Found(7),
        elapsed: Duration::from_micros(20_000),
    };
    assert_eq!(found.line(), "Linear Search found 42 at index 7 in 20.00ms");
    let missed = Report {
        algorithm: Algorithm::BinarySearch,
        target: 42,
        outcome: Outcome::NotFound,
        elapsed: Duration::from_nanos(1_234),
    };
    assert_eq!(missed.line(), "Binary Search completed, not found in 1.23µs");
    let placeholder = Report {
        algorithm: Algorithm::QuickSort,
        target: 0,
        outcome: Outcome::Sorted,
        elapsed: Duration::from_secs(0),
    };
    assert_eq!(placeholder.line(), "Quick Sort completed in 0.00ns");
}

#[test]
fn report_line_with_a_given_text_for_the_time() {
    let report = Report {
        algorithm: Algorithm::BinarySearch,
        target: 100,
        outcome: Outcome::Found(0),
        elapsed: Duration::from_secs(3),
    };
    assert_eq!(report.line_with("no time"), "Binary Search found 100 at index 0 in no time");
    assert_eq!(report.line_with(""), "Binary Search found 100 at index 0 in ");
    assert_eq!(report.line(), "Binary Search found 100 at index 0 in 3.00s");
}

#[test]
fn start_sets_the_target_of_a_new_run() {
    let mut app = App::new();
    app.scramble_values();
    app.step(50);
    app.start(Algorithm::BinarySearch, 64);
    assert_eq!(app.algorithm, Algorithm::BinarySearch);
    assert_eq!(app.search, 64);
    assert_eq!(app.values, initialize(100));
    assert_fresh(&app);
    app.upper_rule = UpperRule::AtMiddle;
    let report = app.step(8).unwrap();
    assert_eq!(report.outcome, Outcome::Found(64));
}

#[test]
fn report_of_a_run_says_what_the_state_holds() {
    let mut app = App::new();
    app.search = 3;
    app.set_algorithm(Algorithm::LinearSearch);
    let report = app.step(10).unwrap();
    assert_eq!(report.algorithm, Algorithm::LinearSearch);
    assert_eq!(report.target, 3);
    assert_eq!(report.outcome, Outcome::Found(3));
    assert_eq!(Some(report.elapsed), app.algo_duration);
    assert!(report.line().starts_with("Linear Search found 3 at index 3 in "));
}
