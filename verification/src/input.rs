use vstd::prelude::*;

use crate::axis::{axis_intent, axis_intent_spec, last_seen, DeviceTrackers, GamepadAxis};
use crate::intent::Intent;

verus! {

/// A keyboard key, as far as menu navigation cares: the four keys that
/// navigate, and every other key under its own code.
#[derive(Clone, Copy, Debug, PartialEq, Eq, Structural)]
pub enum KeyCode {
    ArrowDown,
    ArrowUp,
    Enter,
    Backspace,
    Other(u32),
}

/// The intent one key press maps to. Keys outside the four navigation keys
/// are ignored.
pub open spec fn key_intent_spec(key: KeyCode) -> Option<Intent> {
    match key {
        KeyCode::ArrowDown => Some(Intent::Down),
        KeyCode::ArrowUp => Some(Intent::Up),
        KeyCode::Enter => Some(Intent::Select),
        KeyCode::Backspace => Some(Intent::Back),
        KeyCode::Other(_) => None,
    }
}

/// Translates one key press into its navigation intent.
pub fn keyboard_intent(key: KeyCode) -> (r: Option<Intent>)
    ensures
        r == key_intent_spec(key),
{
    match key {
        KeyCode::ArrowDown => Some(Intent::Down),
        KeyCode::ArrowUp => Some(Intent::Up),
        KeyCode::Enter => Some(Intent::Select),
        KeyCode::Backspace => Some(Intent::Back),
        KeyCode::Other(_) => None,
    }
}

/// Which of one gamepad's digital buttons were pressed down in this tick
/// (edge, not held state).
#[derive(Clone, Copy, Debug, PartialEq, Eq, Structural)]
pub struct GamepadButtons {
    pub dpad_down: bool,
    pub dpad_up: bool,
    pub dpad_right: bool,
    pub south: bool,
    pub west: bool,
    pub east: bool,
    pub north: bool,
}

/// The intent one gamepad's freshly pressed buttons produce. Buttons are
/// checked in a fixed priority order and only the first match emits, so one
/// device contributes at most one intent per tick from its digital buttons.
pub open spec fn button_intent_spec(b: GamepadButtons) -> Option<Intent> {
    if b.dpad_down {
        Some(Intent::Down)
    } else if b.dpad_up {
        Some(Intent::Up)
    } else if b.dpad_right {
        Some(Intent::Back)
    } else if b.south || b.west {
        Some(Intent::Select)
    } else if b.east || b.north {
        Some(Intent::Back)
    } else {
        None
    }
}

/// Resolves one gamepad's just-pressed digital buttons to at most one intent,
/// in fixed priority order.
pub fn button_intent(b: &GamepadButtons) -> (r: Option<Intent>)
    ensures
        r == button_intent_spec(*b),
{
    if b.dpad_down {
        Some(Intent::Down)
    } else if b.dpad_up {
        Some(Intent::Up)
    } else if b.dpad_right {
        Some(Intent::Back)
    } else if b.south || b.west {
        Some(Intent::Select)
    } else if b.east || b.north {
        Some(Intent::Back)
    } else {
        None
    }
}

/// One raw input event of a tick's batch: a key press, one gamepad's
/// just-pressed digital buttons, or an axis-change report (device
/// identifier, axis, new fixed-point value).
#[derive(Clone, Copy, Debug, PartialEq, Eq, Structural)]
pub enum InputEvent {
    Key(KeyCode),
    Buttons(u64, GamepadButtons),
    AxisChanged(u64, GamepadAxis, i32),
}

/// What one raw event does: the trackers after it, and the intent it emits,
/// if any. Key presses and button edges are stateless; an axis change is
/// recorded in its device's tracker and compared against the value seen
/// before. An axis change of a device that has no tracker yet is dropped.
pub open spec fn event_step(
    trackers: Map<u64, Map<GamepadAxis, i32>>,
    e: InputEvent,
    threshold: int,
) -> (Map<u64, Map<GamepadAxis, i32>>, Option<Intent>) {
    match e {
        InputEvent::Key(k) => (trackers, key_intent_spec(k)),
        InputEvent::Buttons(_, b) => (trackers, button_intent_spec(b)),
        InputEvent::AxisChanged(d, a, v) => {
            if trackers.contains_key(d) {
                (
                    trackers.insert(d, trackers[d].insert(a, v)),
                    axis_intent_spec(a, v as int, last_seen(trackers[d], a) as int, threshold),
                )
            } else {
                (trackers, None)
            }
        },
    }
}

/// The trackers and the intents after a whole batch of raw events, in
/// arrival order, one [`event_step`] per event.
pub open spec fn run_events(
    trackers: Map<u64, Map<GamepadAxis, i32>>,
    events: Seq<InputEvent>,
    threshold: int,
) -> (Map<u64, Map<GamepadAxis, i32>>, Seq<Intent>)
    decreases events.len(),
{
    if events.len() == 0 {
        (trackers, Seq::empty())
    } else {
        let stepped = event_step(trackers, events[0], threshold);
        let rest = run_events(stepped.0, events.drop_first(), threshold);
        (
            rest.0,
            match stepped.1 {
                Some(i) => seq![i] + rest.1,
                None => rest.1,
            },
        )
    }
}

/// Normalizes one raw event, updating the axis trackers as a side effect.
pub fn handle_event(trackers: &mut DeviceTrackers, e: &InputEvent, threshold: i32) -> (r: Option<
    Intent,
>)
    requires
        old(trackers).wf(),
        threshold >= 0,
    ensures
        final(trackers).wf(),
        final(trackers)@ == event_step(old(trackers)@, *e, threshold as int).0,
        r == event_step(old(trackers)@, *e, threshold as int).1,
{
    match e {
        InputEvent::Key(k) => keyboard_intent(*k),
        InputEvent::Buttons(_, b) => button_intent(b),
        InputEvent::AxisChanged(d, a, v) => {
            match trackers.record_axis(*d, *a, *v) {
                Some(prev) => axis_intent(*a, *v, prev, threshold),
                None => None,
            }
        },
    }
}

/// Normalizes one tick's batch of raw device events into the intents they
/// produce, preserving arrival order across devices. This is the whole
/// per-tick input pass: stateless key and button translation, plus
/// stateful, debounced edge detection on the analog sticks.
pub fn normalize_events(
    trackers: &mut DeviceTrackers,
    events: &Vec<InputEvent>,
    threshold: i32,
) -> (intents: Vec<Intent>)
    requires
        old(trackers).wf(),
        threshold >= 0,
    ensures
        final(trackers).wf(),
        final(trackers)@ == run_events(old(trackers)@, events@, threshold as int).0,
        intents@ == run_events(old(trackers)@, events@, threshold as int).1,
{
    let ghost full = run_events(trackers@, events@, threshold as int);
    let mut intents: Vec<Intent> = Vec::new();
    let n: usize = events.len();
    let mut i: usize = 0;
    proof {
        assert(events@.skip(0) =~= events@);
        assert(Seq::<Intent>::empty() + full.1 =~= full.1);
    }
    while i < n
        invariant
            n == events@.len(),
            i <= n,
            trackers.wf(),
            threshold >= 0,
            full == run_events(old(trackers)@, events@, threshold as int),
            full.0 == run_events(trackers@, events@.skip(i as int), threshold as int).0,
            full.1 == intents@ + run_events(trackers@, events@.skip(i as int), threshold as int).1,
        decreases n - i,
    {
        let ghost pre = trackers@;
        let ghost tail = events@.skip(i as int);
        match handle_event(trackers, &events[i], threshold) {
            Some(intent) => intents.push(intent),
            None => (),
        }
        proof {
            assert(tail[0] == events@[i as int]);
            assert(tail.drop_first() =~= events@.skip(i as int + 1));
        }
        i = i + 1;
    }
    proof {
        assert(events@.skip(n as int) =~= Seq::<InputEvent>::empty());
        assert(intents@ + Seq::<Intent>::empty() =~= intents@);
    }
    intents
}

} // verus!
