use layerpen::spotlight::SpotlightState;

#[test]
fn a_restart_or_stop_ends_the_running_frame_loop() {
    let mut s = SpotlightState::default();
    assert!(!s.status());
    let first = s.start();
    assert!(s.status() && s.is_running(first));
    let second = s.start();
    assert!(!s.is_running(first) && s.is_running(second));
    s.stop();
    assert!(!s.status() && !s.is_running(second));
}

#[test]
fn generations_wrap_around() {
    let mut s = SpotlightState { enabled: false, generation: u64::MAX };
    assert_eq!(s.start(), 0);
}
