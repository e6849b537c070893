use render_engine::playback::HistoryPlayback;

#[test]
fn frames_end_at_the_end_frame_changes() {
    let marks = vec![false, false, true, false, true, true];
    let mut playback = HistoryPlayback::from_end_frame_marks(&marks);
    assert_eq!(playback.number_frames(), 3);
    assert_eq!(playback.current_frame_index(), 0);
    assert_eq!(playback.next_frame_range(true), Some((0, 2)));
    assert!(!playback.is_last_frame());
    assert_eq!(playback.next_frame_range(true), Some((2, 4)));
    assert!(playback.is_last_frame());
    assert_eq!(playback.next_frame_range(true), Some((4, 5)));
    assert_eq!(playback.current_frame_index(), 3);
    assert!(!playback.is_last_frame());
    assert_eq!(playback.next_frame_range(true), None);
    assert_eq!(playback.current_frame_index(), 3);
}

#[test]
fn a_paused_playback_stays_on_its_frame() {
    let marks = vec![true, true];
    let mut playback = HistoryPlayback::from_end_frame_marks(&marks);
    assert_eq!(playback.next_frame_range(false), None);
    assert_eq!(playback.current_frame_index(), 0);
    assert_eq!(playback.next_frame_range(true), Some((0, 0)));
    assert_eq!(playback.next_frame_range(false), None);
    assert_eq!(playback.current_frame_index(), 1);
}

#[test]
fn a_play_without_end_frame_changes_has_no_frame() {
    let mut playback = HistoryPlayback::from_end_frame_marks(&vec![false, false]);
    assert_eq!(playback.number_frames(), 0);
    assert_eq!(playback.next_frame_range(true), None);
}
