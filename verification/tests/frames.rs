use solarscape::frames::FrameTimes;

#[test]
fn average_over_the_last_second() {
    let mut frames = FrameTimes::new();
    assert_eq!(frames.record(100), 100);
    assert_eq!(frames.record(300), 200);
    assert_eq!(frames.frames(), 2);
    assert_eq!(frames.total(), 400);
}

#[test]
fn oldest_frames_leave_after_one_second() {
    let mut frames = FrameTimes::new();
    frames.record(400_000_000);
    frames.record(400_000_000);
    assert_eq!(frames.record(400_000_000), 400_000_000);
    assert_eq!(frames.frames(), 2);
    assert_eq!(frames.total(), 800_000_000);
}

#[test]
fn a_frame_longer_than_a_second_empties_the_window() {
    let mut frames = FrameTimes::new();
    frames.record(10);
    assert_eq!(frames.record(2_000_000_000), 2_000_000_000);
    assert_eq!(frames.frames(), 0);
    assert_eq!(frames.total(), 0);
}

#[test]
fn a_frame_longer_than_any_window_leaves_it_empty() {
    let mut frames = FrameTimes::new();
    assert_eq!(frames.record(400_000_000), 400_000_000);
    assert_eq!(frames.record(u64::MAX), u64::MAX);
    assert_eq!(frames.frames(), 0);
    assert_eq!(frames.total(), 0);
    assert_eq!(frames.record(10), 10);
    assert_eq!(frames.frames(), 1);
}
