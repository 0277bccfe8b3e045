use avm::display::{keystroke_sequence, stable_scanout_remaining, us_keycode, DisplayState, KeyTransition, MouseButton};
use avm::framebuffer::{Framebuffer, PIXMAN_X8R8G8B8};

#[test]
fn maps_url_characters_to_xt_keyboard_codes() {
    for c in "https://localhost:3000/a-b?x=1".chars() {
        assert!(us_keycode(c).is_some(), "missing mapping for {c:?}");
    }
    assert_eq!(us_keycode('A'), Some((0x1e, true)));
    assert_eq!(us_keycode('/'), Some((0x35, false)));
}

#[test]
fn shifted_text_expands_to_exact_low_level_transitions() {
    assert_eq!(
        keystroke_sequence('A').unwrap(),
        vec![
            KeyTransition::Down(0x2a),
            KeyTransition::Down(0x1e),
            KeyTransition::Up(0x1e),
            KeyTransition::Up(0x2a),
        ]
    );
    assert_eq!(
        keystroke_sequence('a').unwrap(),
        vec![KeyTransition::Down(0x1e), KeyTransition::Up(0x1e)]
    );
}

#[test]
fn scanout_stability_depends_only_on_time_since_latest_full_scanout() {
    let quiet = 250_000_000;
    assert_eq!(
        stable_scanout_remaining(1_000_000_000, 1_100_000_000, quiet),
        150_000_000
    );
    assert_eq!(stable_scanout_remaining(1_000_000_000, 1_300_000_000, quiet), 0);
}

#[test]
fn in_flight_display_work_prevents_stability() {
    let state = DisplayState {
        last_scanout_ns: Some(1_000_000_000),
        display_callbacks_in_flight: 1,
        ..DisplayState::default()
    };
    let remaining = if state.display_callbacks_in_flight > 0 {
        None
    } else {
        state
            .last_scanout_ns
            .map(|last| stable_scanout_remaining(last, 2_000_000_000, 250_000_000))
    };
    assert_eq!(remaining, None);
}

#[test]
fn stable_boot_console_does_not_satisfy_graphical_frame_readiness() {
    let mut state = DisplayState {
        framebuffer: Some(Framebuffer::from_scanout(2, 1, 8, PIXMAN_X8R8G8B8, &[0; 8]).unwrap()),
        last_scanout_ns: Some(1_000_000_000),
        ..DisplayState::default()
    };
    assert_eq!(state.stable_frame_remaining(2_000_000_000, 250_000_000, 3, 2), None);
    state.framebuffer = Some(Framebuffer::from_scanout(3, 2, 12, PIXMAN_X8R8G8B8, &[0; 24]).unwrap());
    state.last_scanout_ns = Some(1_500_000_000);
    assert_eq!(state.stable_frame_remaining(2_000_000_000, 250_000_000, 3, 2), Some(0));
}

#[test]
fn stability_waits_for_the_remaining_quiet_period() {
    let state = DisplayState {
        framebuffer: Some(Framebuffer::from_scanout(3, 2, 12, PIXMAN_X8R8G8B8, &[0; 24]).unwrap()),
        last_scanout_ns: Some(1_000_000_000),
        ..DisplayState::default()
    };
    assert_eq!(state.stable_frame_remaining(1_100_000_000, 250_000_000, 3, 2), Some(150_000_000));
    let busy = DisplayState { display_callbacks_in_flight: 2, ..state };
    assert_eq!(busy.stable_frame_remaining(2_000_000_000, 250_000_000, 3, 2), None);
}

#[test]
fn unmapped_characters_have_no_keystrokes() {
    assert_eq!(us_keycode('é'), None);
    assert!(keystroke_sequence('é').is_none());
    assert_eq!(keystroke_sequence('?').unwrap().len(), 4);
}

#[test]
fn display_updates_are_counted_strictly_inside_the_interval() {
    let state = DisplayState {
        display_timestamps: vec![10, 20, 30, 40],
        ..DisplayState::default()
    };
    assert_eq!(state.display_updates_between(10, 40), 2);
    assert_eq!(state.display_updates_between(0, 100), 4);
    assert!(!state.displayed_after(0));
}

#[test]
fn mouse_buttons_have_qemu_codes() {
    assert_eq!(MouseButton::Left.code(), 0);
    assert_eq!(MouseButton::Right.name(), "Right");
    assert_eq!(MouseButton::WheelDown.code(), 4);
}
