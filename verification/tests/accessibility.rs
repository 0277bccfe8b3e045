use avm::accessibility::{AccessibilityError, AccessibilityObservation, MAX_SENSOR_LINE_BYTES};

#[test]
fn observation_needs_the_readiness_announcement() {
    let mut observation = AccessibilityObservation::new();
    observation.accept_event("accessibility.tree.snapshot").unwrap();
    assert_eq!(observation.finish().unwrap_err(), AccessibilityError::NotReady);
    observation.accept_event("accessibility.sensor.ready").unwrap();
    let result = observation.finish().unwrap();
    assert_eq!(result.event_count, 2);
    assert!(result.ready_observed);
}

#[test]
fn out_of_scope_kinds_and_long_lines_are_refused() {
    let mut observation = AccessibilityObservation::new();
    assert_eq!(observation.accept_event("display.update"), Err(AccessibilityError::KindOutOfScope));
    assert_eq!(observation.event_count, 0);
    assert_eq!(observation.check_line(MAX_SENSOR_LINE_BYTES + 1), Err(AccessibilityError::LineTooLong));
    assert_eq!(observation.check_line(MAX_SENSOR_LINE_BYTES), Ok(()));
}
