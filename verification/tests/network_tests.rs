use macos_watcher::network::{saturating_delta, NetworkTracker};
use macos_watcher::record::format_network_delta;

#[test]
fn first_observation_emits_delta_from_zero() {
    let mut t = NetworkTracker::new();
    let deltas = t.observe("myapp.42", "myapp.42 1000 500\nother.7 5 6\n");
    assert_eq!(deltas.len(), 1);
    assert_eq!(deltas[0].process_key, "myapp.42");
    assert_eq!(deltas[0].bytes_in, 1000);
    assert_eq!(deltas[0].bytes_out, 500);
    assert_eq!(deltas[0].delta_in, 1000);
    assert_eq!(deltas[0].delta_out, 500);
    assert_eq!(t.stored(&"myapp.42".to_string()), Some((1000, 500)));
    assert_eq!(t.stored(&"other.7".to_string()), None);
}

#[test]
fn counter_movement_reports_exact_delta() {
    let mut t = NetworkTracker::new();
    t.observe("myapp.42", "myapp.42 1000 500\n");
    let deltas = t.observe("myapp.42", "myapp.42 1500 500\n");
    assert_eq!(deltas.len(), 1);
    assert_eq!(deltas[0].process_key, "myapp.42");
    assert_eq!(deltas[0].bytes_in, 1500);
    assert_eq!(deltas[0].bytes_out, 500);
    assert_eq!(deltas[0].delta_in, 500);
    assert_eq!(deltas[0].delta_out, 0);
    assert_eq!(t.stored(&"myapp.42".to_string()), Some((1500, 500)));
}

#[test]
fn unchanged_counters_emit_nothing() {
    let mut t = NetworkTracker::new();
    t.observe("myapp.42", "myapp.42 1500 500\n");
    let deltas = t.observe("myapp.42", "myapp.42 1500 500\n");
    assert!(deltas.is_empty());
    assert_eq!(t.stored(&"myapp.42".to_string()), Some((1500, 500)));
}

#[test]
fn counter_reset_saturates_to_zero() {
    let mut t = NetworkTracker::new();
    t.observe("myapp.42", "myapp.42 1000 500\n");
    let deltas = t.observe("myapp.42", "myapp.42 100 500\n");
    assert_eq!(deltas.len(), 1);
    assert_eq!(deltas[0].delta_in, 0);
    assert_eq!(deltas[0].delta_out, 0);
    assert_eq!(t.stored(&"myapp.42".to_string()), Some((100, 500)));
}

#[test]
fn saturating_delta_never_wraps() {
    assert_eq!(saturating_delta(1500, 1000), 500);
    assert_eq!(saturating_delta(100, 1000), 0);
    assert_eq!(saturating_delta(0, u64::MAX), 0);
    assert_eq!(saturating_delta(u64::MAX, 0), u64::MAX);
    assert_eq!(saturating_delta(7, 7), 0);
}

#[test]
fn non_matching_lines_are_ignored() {
    let mut t = NetworkTracker::new();
    let deltas = t.observe("myapp.42", "other.7 100 200\nheader line here\n");
    assert!(deltas.is_empty());
    assert_eq!(t.stored(&"other.7".to_string()), None);
}

#[test]
fn matching_is_case_insensitive() {
    let mut t = NetworkTracker::new();
    let deltas = t.observe("myapp.42", "MyApp.42 10 20\n");
    assert_eq!(deltas.len(), 1);
    assert_eq!(deltas[0].process_key, "MyApp.42");
}

#[test]
fn malformed_counters_parse_as_zero() {
    let mut t = NetworkTracker::new();
    let deltas = t.observe("myapp.42", "myapp.42 abc -5\n");
    assert!(deltas.is_empty());
    let deltas = t.observe("myapp.42", "myapp.42 12 xyz\n");
    assert_eq!(deltas.len(), 1);
    assert_eq!(deltas[0].bytes_in, 12);
    assert_eq!(deltas[0].bytes_out, 0);
}

#[test]
fn short_lines_are_skipped() {
    let mut t = NetworkTracker::new();
    let deltas = t.observe("myapp.42", "myapp.42 77\n");
    assert!(deltas.is_empty());
    assert_eq!(t.stored(&"myapp.42".to_string()), None);
}

#[test]
fn delta_line_formats_counters() {
    let mut t = NetworkTracker::new();
    t.observe("myapp.42", "myapp.42 1000 500\n");
    let deltas = t.observe("myapp.42", "myapp.42 1500 500\n");
    let line = format_network_delta(&deltas[0]);
    assert_eq!(line, "Network: myapp.42 up 500 B down 1500 B (delta up 0 down 500)");
}

#[test]
fn substring_matching_can_cross_keys() {
    // The filter is substring containment by design: a target that is a
    // substring of two process keys matches both lines.
    let mut t = NetworkTracker::new();
    let deltas = t.observe("42", "myapp.42 10 1\nother.420 20 2\nunrelated.7 30 3\n");
    assert_eq!(deltas.len(), 2);
    assert_eq!(deltas[0].process_key, "myapp.42");
    assert_eq!(deltas[1].process_key, "other.420");
    assert_eq!(t.stored(&"unrelated.7".to_string()), None);
}
