use renpy_rust_module::computation::heavy_computation;
use renpy_rust_module::greeting::greet;
use renpy_rust_module::text::{join_strings, push_i64_decimal, split_lines};
use renpy_rust_module::tracker::{GameStateTracker, TrackerError};

#[test]
fn test_greet() {
    assert_eq!(greet("Ren'Py"), "Hello from Rust to Ren'Py!");
}

#[test]
fn test_heavy_computation_logic() {
    let count = 1000u64;
    let mut sum = 0u64;
    for i in 0..count {
        sum = sum.wrapping_add(i);
    }
    assert_eq!(sum, 499500);
    assert_eq!(heavy_computation(count), 499500);
}

#[test]
fn test_game_tracker_and_pickle_state() {
    let mut tracker = GameStateTracker::new(100);
    assert_eq!(tracker.points, 100);
    let res = tracker.add_points(50).unwrap();
    assert_eq!(res, 150);
    assert_eq!(tracker.points, 150);
    assert!(tracker.add_points(-5).is_err());

    // Test rollback / save state serialization
    let state = tracker.__getstate__();
    assert_eq!(state.0, 150);
    assert_eq!(state.1.len(), 1);

    let mut restored = GameStateTracker::new(0);
    restored.__setstate__(state);
    assert_eq!(restored.points, 150);
    assert_eq!(restored.get_history().len(), 1);
}

#[test]
fn greet_empty_and_unicode_names() {
    assert_eq!(greet(""), "Hello from Rust to !");
    assert_eq!(greet("Éloïse"), "Hello from Rust to Éloïse!");
}

#[test]
fn heavy_computation_small_counts() {
    assert_eq!(heavy_computation(0), 0);
    assert_eq!(heavy_computation(1), 0);
    assert_eq!(heavy_computation(2), 1);
    assert_eq!(heavy_computation(5), 10);
    assert_eq!(heavy_computation(100_000), 4_999_950_000);
}

#[test]
fn heavy_computation_matches_closed_form() {
    let m: u64 = 200_000;
    assert_eq!(heavy_computation(m), ((m as u128) * ((m - 1) as u128) / 2) as u64);
}

#[test]
fn add_points_records_history_messages() {
    let mut t = GameStateTracker::new(-7);
    assert_eq!(t.add_points(0), Ok(-7));
    assert_eq!(t.add_points(12), Ok(5));
    assert_eq!(
        t.get_history(),
        vec!["Added 0 points. Total: -7".to_string(), "Added 12 points. Total: 5".to_string()]
    );
}

#[test]
fn refused_addition_leaves_tracker_unchanged() {
    let mut t = GameStateTracker::new(3);
    t.add_points(4).unwrap();
    let before = t.__getstate__();
    assert_eq!(t.add_points(-1), Err(TrackerError::NegativePoints));
    assert_eq!(t.add_points(i64::MIN), Err(TrackerError::NegativePoints));
    assert_eq!(t.__getstate__(), before);
    assert_eq!(
        TrackerError::NegativePoints.message(),
        "Cannot add negative points! Use deduct_points instead."
    );
}

#[test]
fn reset_returns_to_a_fresh_tracker() {
    let mut t = GameStateTracker::new(10);
    t.add_points(5).unwrap();
    t.reset();
    assert_eq!(t.points, 0);
    assert!(t.get_history().is_empty());
    assert_eq!(t.__getstate__(), GameStateTracker::new(0).__getstate__());
}

#[test]
fn save_then_restore_round_trips() {
    let mut t = GameStateTracker::new(1);
    t.add_points(2).unwrap();
    t.add_points(3).unwrap();
    let saved = t.__getstate__();
    let mut other = GameStateTracker::new(99);
    other.add_points(1).unwrap();
    other.__setstate__(saved.clone());
    assert_eq!(other.__getstate__(), saved);
    assert_eq!(other.points, 6);
}

#[test]
fn restore_then_save_hands_back_the_state() {
    let state = (42i64, vec!["anything".to_string(), "at all".to_string()]);
    let mut t = GameStateTracker::new(0);
    t.__setstate__(state.clone());
    assert_eq!(t.__getstate__(), state);
}

#[test]
fn history_counts_accepted_additions() {
    let mut t = GameStateTracker::new(0);
    for a in [1i64, -2, 3, -4, 5] {
        let _ = t.add_points(a);
    }
    assert_eq!(t.get_history().len(), 3);
    assert_eq!(t.points, 9);
}

#[test]
fn decimal_notation_of_extremes() {
    let mut s = String::new();
    push_i64_decimal(&mut s, i64::MIN);
    assert_eq!(s, "-9223372036854775808");
    let mut s = String::from("x");
    push_i64_decimal(&mut s, i64::MAX);
    assert_eq!(s, "x9223372036854775807");
    let mut s = String::new();
    push_i64_decimal(&mut s, 0);
    assert_eq!(s, "0");
}

#[test]
fn lines_follow_std() {
    for text in ["", "a", "a\n", "a\nb", "a\r\nb\r\n", "\n\n", "a\r", "x\ry\n", "\r\n"] {
        let ours = split_lines(text);
        let std_lines: Vec<String> = text.lines().map(String::from).collect();
        assert_eq!(ours, std_lines, "input {:?}", text);
    }
}

#[test]
fn join_puts_separator_between_parts() {
    let parts = vec!["a".to_string(), "b".to_string(), "c".to_string()];
    assert_eq!(join_strings(&parts, ", "), "a, b, c");
    assert_eq!(join_strings(&Vec::new(), ", "), "");
}
