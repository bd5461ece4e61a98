use audio_visualizer::visualizer::{frame_duration_nanos, sleep_nanos, NANOS_PER_SECOND};

#[test]
fn frame_duration_at_thirty_fps() {
    assert_eq!(frame_duration_nanos(30), 33_333_333);
    assert_eq!(frame_duration_nanos(1), NANOS_PER_SECOND);
}

#[test]
fn sleep_fills_the_rest_of_the_frame() {
    assert_eq!(sleep_nanos(33_333_333, 10_000_000), 23_333_333);
    assert_eq!(sleep_nanos(100, 100), 0);
    assert_eq!(sleep_nanos(100, 250), 0);
}
