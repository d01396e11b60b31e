use nosebleed::input::{
    Axis, Button, InputHub, InputUpdate, MAX_PORTS, STALE_TIMEOUT_NS, TRANSIENT_PULSE_NS,
};

#[test]
fn pulse_button_survives_followup_input_update_from_same_source() {
    let mut hub = InputHub::default();
    let port = 0;
    let source = "player-1";

    let mut released = InputUpdate::default();
    released.buttons.insert(Button::Select, false);

    hub.apply_update(port, source, &released);
    hub.pulse_button(port, source, Button::Select);
    hub.apply_update(port, source, &released);

    assert_eq!(hub.joypad_button_state(port, Button::Select.retro_id()), 1);
}

#[test]
fn pulse_button_expires_after_short_duration() {
    let mut hub = InputHub::default();
    let port = 0;

    hub.pulse_button_at(0, port, "player-1", Button::Select);
    assert_eq!(hub.joypad_button_state_at(0, port, Button::Select.retro_id()), 1);

    let later = TRANSIENT_PULSE_NS + 30_000_000;

    assert_eq!(hub.joypad_button_state_at(later, port, Button::Select.retro_id()), 0);
}

fn pressed(button: Button) -> InputUpdate {
    let mut update = InputUpdate::default();
    update.buttons.insert(button, true);
    update
}

#[test]
fn buttons_have_the_ids_of_libretro() {
    assert_eq!(Button::from_retro_id(0), Some(Button::B));
    assert_eq!(Button::from_retro_id(16), None);
    for id in 0..16u32 {
        assert_eq!(Button::from_retro_id(id).unwrap().retro_id(), id);
    }
}

#[test]
fn any_source_presses_a_button() {
    let mut hub = InputHub::default();
    hub.apply_update_at(10, 1, "one", &pressed(Button::A));
    hub.apply_update_at(11, 1, "two", &pressed(Button::Start));
    assert_eq!(hub.joypad_button_state_at(12, 1, Button::A.retro_id()), 1);
    assert_eq!(hub.joypad_button_state_at(12, 1, Button::Start.retro_id()), 1);
    assert_eq!(hub.joypad_button_state_at(12, 0, Button::A.retro_id()), 0);
}

#[test]
fn a_source_that_is_silent_does_not_count() {
    let mut hub = InputHub::default();
    hub.apply_update_at(0, 0, "one", &pressed(Button::A));
    assert_eq!(hub.joypad_button_state_at(STALE_TIMEOUT_NS, 0, Button::A.retro_id()), 1);
    assert_eq!(hub.joypad_button_state_at(STALE_TIMEOUT_NS + 1, 0, Button::A.retro_id()), 0);
}

#[test]
fn the_furthest_tilt_prevails() {
    let mut hub = InputHub::default();
    let mut little = InputUpdate::default();
    little.axes.insert(Axis::Lx, 100);
    let mut far = InputUpdate::default();
    far.axes.insert(Axis::Lx, -2_000);
    hub.apply_update_at(0, 0, "one", &little);
    hub.apply_update_at(0, 0, "two", &far);
    assert_eq!(hub.analog_state_at(1, 0, 0, 0), -2_000);
    hub.remove_source("two");
    assert_eq!(hub.analog_state_at(1, 0, 0, 0), 100);
}

#[test]
fn the_last_update_of_a_source_counts() {
    let mut hub = InputHub::default();
    hub.apply_update_at(0, 0, "one", &pressed(Button::A));
    let mut released = InputUpdate::default();
    released.buttons.insert(Button::A, false);
    hub.apply_update_at(1, 0, "one", &released);
    assert_eq!(hub.joypad_button_state_at(2, 0, Button::A.retro_id()), 0);
}

#[test]
fn ports_beyond_the_last_are_ignored() {
    let mut hub = InputHub::default();
    hub.apply_update_at(0, MAX_PORTS, "one", &pressed(Button::A));
    assert_eq!(hub.joypad_button_state_at(1, MAX_PORTS, Button::A.retro_id()), 0);
}

#[test]
fn a_source_that_left_presses_nothing() {
    let mut hub = InputHub::default();
    hub.apply_update_at(0, 0, "one", &pressed(Button::A));
    hub.remove_source("one");
    assert_eq!(hub.joypad_button_state_at(1, 0, Button::A.retro_id()), 0);
}
