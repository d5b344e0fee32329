use cosim::driver::{StallDetector, BUBBLE_LIMIT};

#[test]
fn ninety_nine_bubble_lines_are_not_stuck() {
    let mut det = StallDetector::new();
    for _ in 0..99 {
        assert!(!det.note_line(false));
    }
    assert_eq!(det.count, 99);
}

#[test]
fn the_hundredth_bubble_line_is_stuck() {
    let mut det = StallDetector::new();
    for _ in 0..99 {
        assert!(!det.note_line(false));
    }
    assert!(det.note_line(false));
    assert_eq!(det.count, BUBBLE_LIMIT);
}

#[test]
fn any_commit_resets_the_count() {
    let mut det = StallDetector::new();
    for _ in 0..99 {
        det.note_line(false);
    }
    assert!(!det.note_line(true));
    assert_eq!(det.count, 0);
    // The window starts over: another 99 bubbles still do not trip it.
    for _ in 0..99 {
        assert!(!det.note_line(false));
    }
}
