use quickmenu::axis::{axis_intent, cross_threshold, AxisTracker, DeviceTrackers, GamepadAxis};
use quickmenu::input::{
    button_intent, handle_event, keyboard_intent, normalize_events, GamepadButtons, InputEvent,
    KeyCode,
};
use quickmenu::intent::Intent;

const THRESHOLD: i32 = 100;

fn no_buttons() -> GamepadButtons {
    GamepadButtons {
        dpad_down: false,
        dpad_up: false,
        dpad_right: false,
        south: false,
        west: false,
        east: false,
        north: false,
    }
}

#[test]
fn keyboard_maps_the_four_navigation_keys() {
    assert_eq!(keyboard_intent(KeyCode::ArrowDown), Some(Intent::Down));
    assert_eq!(keyboard_intent(KeyCode::ArrowUp), Some(Intent::Up));
    assert_eq!(keyboard_intent(KeyCode::Enter), Some(Intent::Select));
    assert_eq!(keyboard_intent(KeyCode::Backspace), Some(Intent::Back));
    assert_eq!(keyboard_intent(KeyCode::Other(42)), None);
}

#[test]
fn button_priority_emits_one_intent() {
    // D-pad down and South pressed in the same tick: Down wins
    let mut b = no_buttons();
    b.dpad_down = true;
    b.south = true;
    assert_eq!(button_intent(&b), Some(Intent::Down));
}

#[test]
fn button_mapping_covers_all_cases() {
    let mut b = no_buttons();
    b.dpad_up = true;
    assert_eq!(button_intent(&b), Some(Intent::Up));
    let mut b = no_buttons();
    b.dpad_right = true;
    assert_eq!(button_intent(&b), Some(Intent::Back));
    let mut b = no_buttons();
    b.west = true;
    assert_eq!(button_intent(&b), Some(Intent::Select));
    let mut b = no_buttons();
    b.east = true;
    assert_eq!(button_intent(&b), Some(Intent::Back));
    let mut b = no_buttons();
    b.north = true;
    assert_eq!(button_intent(&b), Some(Intent::Back));
    assert_eq!(button_intent(&no_buttons()), None);
}

#[test]
fn positive_crossing_fires_exactly_once() {
    // previous 0.05, current 0.20, threshold 0.10 (in thousandths): fires
    assert!(cross_threshold(200, 50, THRESHOLD, true));
    // next tick, previous 0.20, current 0.25, still above: nothing
    assert!(!cross_threshold(250, 200, THRESHOLD, true));
}

#[test]
fn negative_crossing_and_no_spurious_refire() {
    // previous -0.05, current -0.20, threshold -0.10: negative crossing
    assert!(cross_threshold(-200, -50, -THRESHOLD, false));
    // coming back from -0.20 to -0.05 does not cross +0.10 upward
    assert!(!cross_threshold(-50, -200, THRESHOLD, true));
}

#[test]
fn y_axis_navigates_up_and_down() {
    assert_eq!(
        axis_intent(GamepadAxis::LeftStickY, 200, 50, THRESHOLD),
        Some(Intent::Up)
    );
    assert_eq!(
        axis_intent(GamepadAxis::RightStickY, -200, -50, THRESHOLD),
        Some(Intent::Down)
    );
    assert_eq!(axis_intent(GamepadAxis::LeftStickY, 250, 200, THRESHOLD), None);
}

#[test]
fn x_axis_navigates_back_only() {
    assert_eq!(
        axis_intent(GamepadAxis::LeftStickX, -200, -50, THRESHOLD),
        Some(Intent::Back)
    );
    // a positive crossing on an X axis is not a forward move
    assert_eq!(axis_intent(GamepadAxis::RightStickX, 200, 50, THRESHOLD), None);
    assert_eq!(
        axis_intent(GamepadAxis::RightStickX, -200, -50, THRESHOLD),
        Some(Intent::Back)
    );
}

#[test]
fn other_axes_never_emit() {
    assert_eq!(axis_intent(GamepadAxis::Other(5), 900, -900, THRESHOLD), None);
}

#[test]
fn tracker_returns_previous_value_with_zero_default() {
    let mut t = AxisTracker::new();
    assert_eq!(t.record(GamepadAxis::LeftStickY, 50), 0);
    assert_eq!(t.record(GamepadAxis::LeftStickY, 200), 50);
    // axes are tracked independently
    assert_eq!(t.record(GamepadAxis::LeftStickX, -200), 0);
    assert_eq!(t.record(GamepadAxis::LeftStickY, 250), 200);
}

#[test]
fn axis_event_without_tracker_is_dropped() {
    let mut trackers = DeviceTrackers::new();
    let e = InputEvent::AxisChanged(0, GamepadAxis::LeftStickY, 200);
    assert_eq!(handle_event(&mut trackers, &e, THRESHOLD), None);
    // the drop recorded nothing: a later crossing still sees previous 0
    trackers.ensure_tracker(0);
    assert_eq!(
        handle_event(&mut trackers, &e, THRESHOLD),
        Some(Intent::Up)
    );
}

#[test]
fn trackers_are_per_device() {
    let mut trackers = DeviceTrackers::new();
    trackers.ensure_tracker(0);
    trackers.ensure_tracker(1);
    let up = InputEvent::AxisChanged(0, GamepadAxis::LeftStickY, 200);
    assert_eq!(handle_event(&mut trackers, &up, THRESHOLD), Some(Intent::Up));
    // device 1 has its own history: same motion fires for it too
    let up1 = InputEvent::AxisChanged(1, GamepadAxis::LeftStickY, 200);
    assert_eq!(handle_event(&mut trackers, &up1, THRESHOLD), Some(Intent::Up));
}

#[test]
fn edge_triggered_over_a_batch() {
    let mut trackers = DeviceTrackers::new();
    trackers.ensure_tracker(0);
    let events = vec![
        InputEvent::AxisChanged(0, GamepadAxis::LeftStickY, 50),
        InputEvent::AxisChanged(0, GamepadAxis::LeftStickY, 200),
        InputEvent::AxisChanged(0, GamepadAxis::LeftStickY, 250),
    ];
    let intents = normalize_events(&mut trackers, &events, THRESHOLD);
    assert_eq!(intents, vec![Intent::Up]);
}

#[test]
fn batch_preserves_arrival_order() {
    let mut trackers = DeviceTrackers::new();
    trackers.ensure_tracker(0);
    let mut select = no_buttons();
    select.south = true;
    let events = vec![
        InputEvent::Key(KeyCode::ArrowUp),
        InputEvent::Key(KeyCode::Other(3)),
        InputEvent::Buttons(0, select),
        InputEvent::AxisChanged(0, GamepadAxis::LeftStickY, -200),
        InputEvent::Key(KeyCode::Backspace),
    ];
    let intents = normalize_events(&mut trackers, &events, THRESHOLD);
    assert_eq!(
        intents,
        vec![Intent::Up, Intent::Select, Intent::Down, Intent::Back]
    );
}

#[test]
fn ensure_tracker_keeps_existing_history() {
    let mut trackers = DeviceTrackers::new();
    trackers.ensure_tracker(0);
    let e = InputEvent::AxisChanged(0, GamepadAxis::LeftStickY, 50);
    assert_eq!(handle_event(&mut trackers, &e, THRESHOLD), None);
    // noticing the device again must not reset its tracker
    trackers.ensure_tracker(0);
    let e2 = InputEvent::AxisChanged(0, GamepadAxis::LeftStickY, 200);
    assert_eq!(handle_event(&mut trackers, &e2, THRESHOLD), Some(Intent::Up));
}
