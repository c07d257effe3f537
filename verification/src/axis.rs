use vstd::prelude::*;

use crate::intent::Intent;

verus! {

/// One analog input channel of a gamepad. The four stick axes take part in
/// navigation; every other channel is carried under its own code and only
/// recorded.
#[derive(Clone, Copy, Debug, PartialEq, Eq, Structural)]
pub enum GamepadAxis {
    LeftStickX,
    LeftStickY,
    RightStickX,
    RightStickY,
    Other(u8),
}

/// Whether a value moved across a signed threshold in this exact tick.
///
/// Axis positions and thresholds are fixed-point integers: a stick reading in
/// [-1, 1] scaled by whatever consistent factor the host chooses.
pub open spec fn crosses(current: int, previous: int, threshold: int, positive: bool) -> bool {
    if positive {
        current > threshold && threshold > previous
    } else {
        current < threshold && threshold < previous
    }
}

/// Edge detection on an analog value: a positive crossing fires when the
/// value rose from below `threshold` to above it in this tick, a negative
/// crossing when it fell from above `threshold` to below it. A value that
/// stays on one side of the threshold never fires.
pub fn cross_threshold(current: i32, previous: i32, threshold: i32, positive: bool) -> (r: bool)
    ensures
        r == crosses(current as int, previous as int, threshold as int, positive),
{
    if positive {
        current > threshold && threshold > previous
    } else {
        current < threshold && threshold < previous
    }
}

/// Law: threshold crossing is edge-triggered, not level-triggered. After a
/// positive crossing the value sits above the threshold, so the next tick
/// (whose `previous` is this tick's `current`) cannot fire a positive
/// crossing again, whatever the stick does: it fires once, on the crossing
/// tick only.
pub proof fn lemma_positive_crossing_fires_once(
    current: int,
    previous: int,
    threshold: int,
    next: int,
)
    requires
        crosses(current, previous, threshold, true),
    ensures
        !crosses(next, current, threshold, true),
{
}

/// Law: the mirror statement for negative crossings. After a negative
/// crossing the value sits below the threshold, so a negative crossing
/// cannot fire again until the value has risen back across it.
pub proof fn lemma_negative_crossing_fires_once(
    current: int,
    previous: int,
    threshold: int,
    next: int,
)
    requires
        crosses(current, previous, threshold, false),
    ensures
        !crosses(next, current, threshold, false),
{
}

/// The intent, if any, that one axis-change event produces, given the value
/// the tracker had seen before. The stick Y axes navigate up and down; the
/// stick X axes navigate back only (no forward motion through an X axis, by
/// design); other channels never produce an intent. `threshold` is the
/// configurable positive magnitude of the dead zone boundary.
pub open spec fn axis_intent_spec(
    axis: GamepadAxis,
    current: int,
    previous: int,
    threshold: int,
) -> Option<Intent> {
    match axis {
        GamepadAxis::LeftStickY => y_axis_intent(current, previous, threshold),
        GamepadAxis::RightStickY => y_axis_intent(current, previous, threshold),
        GamepadAxis::LeftStickX => x_axis_intent(current, previous, threshold),
        GamepadAxis::RightStickX => x_axis_intent(current, previous, threshold),
        GamepadAxis::Other(_) => None,
    }
}

pub open spec fn y_axis_intent(current: int, previous: int, threshold: int) -> Option<Intent> {
    if crosses(current, previous, threshold, true) {
        Some(Intent::Up)
    } else if crosses(current, previous, -threshold, false) {
        Some(Intent::Down)
    } else {
        None
    }
}

pub open spec fn x_axis_intent(current: int, previous: int, threshold: int) -> Option<Intent> {
    if crosses(current, previous, -threshold, false) {
        Some(Intent::Back)
    } else {
        None
    }
}

/// Applies the threshold-crossing rule to one axis-change event.
pub fn axis_intent(axis: GamepadAxis, current: i32, previous: i32, threshold: i32) -> (r: Option<
    Intent,
>)
    requires
        threshold >= 0,
    ensures
        r == axis_intent_spec(axis, current as int, previous as int, threshold as int),
{
    match axis {
        GamepadAxis::LeftStickY | GamepadAxis::RightStickY => {
            if cross_threshold(current, previous, threshold, true) {
                Some(Intent::Up)
            } else if cross_threshold(current, previous, -threshold, false) {
                Some(Intent::Down)
            } else {
                None
            }
        },
        GamepadAxis::LeftStickX | GamepadAxis::RightStickX => {
            if cross_threshold(current, previous, -threshold, false) {
                Some(Intent::Back)
            } else {
                None
            }
        },
        GamepadAxis::Other(_) => None,
    }
}

/// The map a sequence of axis/value entries represents.
pub open spec fn axis_entries_map(s: Seq<(GamepadAxis, i32)>) -> Map<GamepadAxis, i32>
    decreases s.len(),
{
    if s.len() == 0 {
        Map::empty()
    } else {
        axis_entries_map(s.drop_last()).insert(s.last().0, s.last().1)
    }
}

pub open spec fn axis_unique_keys(s: Seq<(GamepadAxis, i32)>) -> bool {
    forall|i: int, j: int| 0 <= i < j < s.len() ==> (#[trigger] s[i]).0 != (#[trigger] s[j]).0
}

/// The value a tracker last saw on an axis, with the default of 0 for an
/// axis that has never reported (no prior motion).
pub open spec fn last_seen(t: Map<GamepadAxis, i32>, axis: GamepadAxis) -> i32 {
    if t.contains_key(axis) {
        t[axis]
    } else {
        0
    }
}

proof fn lemma_axis_map_contains(s: Seq<(GamepadAxis, i32)>, k: GamepadAxis)
    ensures
        axis_entries_map(s).contains_key(k) <==> exists|i: int|
            0 <= i < s.len() && (#[trigger] s[i]).0 == k,
    decreases s.len(),
{
    if s.len() > 0 {
        lemma_axis_map_contains(s.drop_last(), k);
        if s.last().0 == k {
            assert(s[s.len() - 1].0 == k);
        } else {
            if axis_entries_map(s).contains_key(k) {
                let i = choose|i: int|
                    0 <= i < s.drop_last().len() && (#[trigger] s.drop_last()[i]).0 == k;
                assert(s[i].0 == k);
            }
            if exists|i: int| 0 <= i < s.len() && (#[trigger] s[i]).0 == k {
                let i = choose|i: int| 0 <= i < s.len() && (#[trigger] s[i]).0 == k;
                assert(i < s.len() - 1);
                assert(s.drop_last()[i].0 == k);
            }
        }
    }
}

proof fn lemma_axis_map_at(s: Seq<(GamepadAxis, i32)>, i: int)
    requires
        0 <= i < s.len(),
        forall|j: int| i < j < s.len() ==> (#[trigger] s[j]).0 != s[i].0,
    ensures
        axis_entries_map(s).contains_key(s[i].0),
        axis_entries_map(s)[s[i].0] == s[i].1,
    decreases s.len(),
{
    if i < s.len() - 1 {
        lemma_axis_map_at(s.drop_last(), i);
        assert(s.drop_last()[i] == s[i]);
        assert(s.last().0 != s[i].0);
    }
}

proof fn lemma_axis_map_update(s: Seq<(GamepadAxis, i32)>, i: int, v: i32)
    requires
        0 <= i < s.len(),
        axis_unique_keys(s),
    ensures
        axis_entries_map(s.update(i, (s[i].0, v))) == axis_entries_map(s).insert(s[i].0, v),
    decreases s.len(),
{
    let t = s.update(i, (s[i].0, v));
    if i == s.len() - 1 {
        assert(t.drop_last() =~= s.drop_last());
        assert(axis_entries_map(t) =~= axis_entries_map(s).insert(s[i].0, v));
    } else {
        lemma_axis_map_update(s.drop_last(), i, v);
        assert(t.drop_last() =~= s.drop_last().update(i, (s[i].0, v)));
        assert(t.last() == s.last());
        assert(s.last().0 != s[i].0);
        assert(axis_entries_map(t) =~= axis_entries_map(s).insert(s[i].0, v));
    }
}

/// One device's cache of last-seen axis values, used for edge detection.
/// Created when a device is connected; never shared across devices.
pub struct AxisTracker {
    entries: Vec<(GamepadAxis, i32)>,
}

impl View for AxisTracker {
    type V = Map<GamepadAxis, i32>;

    closed spec fn view(&self) -> Map<GamepadAxis, i32> {
        axis_entries_map(self.entries@)
    }
}

impl AxisTracker {
    pub closed spec fn wf(self) -> bool {
        axis_unique_keys(self.entries@)
    }

    /// A fresh tracker: every axis reads as 0 until it reports.
    pub fn new() -> (r: AxisTracker)
        ensures
            r.wf(),
            r@ == Map::<GamepadAxis, i32>::empty(),
    {
        AxisTracker { entries: Vec::new() }
    }

    /// Records the new value of an axis and hands back the value seen
    /// before, 0 on the axis's first report.
    pub fn record(&mut self, axis: GamepadAxis, value: i32) -> (prev: i32)
        requires
            old(self).wf(),
        ensures
            final(self).wf(),
            prev == last_seen(old(self)@, axis),
            final(self)@ == old(self)@.insert(axis, value),
    {
        let n: usize = self.entries.len();
        let mut i: usize = 0;
        while i < n
            invariant
                n == self.entries@.len(),
                i <= n,
                self.wf(),
                self.entries@ == old(self).entries@,
                forall|j: int| 0 <= j < i ==> (#[trigger] self.entries@[j]).0 != axis,
            decreases n - i,
        {
            if self.entries[i].0 == axis {
                proof {
                    lemma_axis_map_at(self.entries@, i as int);
                    lemma_axis_map_update(self.entries@, i as int, value);
                }
                let e = self.entries.remove(i);
                self.entries.insert(i, (e.0, value));
                proof {
                    assert(self.entries@ =~= old(self).entries@.update(
                        i as int,
                        (old(self).entries@[i as int].0, value),
                    ));
                }
                return e.1;
            }
            i = i + 1;
        }
        self.entries.push((axis, value));
        proof {
            lemma_axis_map_contains(old(self).entries@, axis);
            assert(self.entries@.drop_last() =~= old(self).entries@);
        }
        0
    }
}

/// The two-level map a sequence of device/tracker entries represents: device
/// identifier to that device's last-seen axis values.
pub open spec fn device_map(s: Seq<(u64, AxisTracker)>) -> Map<u64, Map<GamepadAxis, i32>>
    decreases s.len(),
{
    if s.len() == 0 {
        Map::empty()
    } else {
        device_map(s.drop_last()).insert(s.last().0, s.last().1@)
    }
}

pub open spec fn device_unique_keys(s: Seq<(u64, AxisTracker)>) -> bool {
    forall|i: int, j: int| 0 <= i < j < s.len() ==> (#[trigger] s[i]).0 != (#[trigger] s[j]).0
}

proof fn lemma_device_map_contains(s: Seq<(u64, AxisTracker)>, k: u64)
    ensures
        device_map(s).contains_key(k) <==> exists|i: int|
            0 <= i < s.len() && (#[trigger] s[i]).0 == k,
    decreases s.len(),
{
    if s.len() > 0 {
        lemma_device_map_contains(s.drop_last(), k);
        if s.last().0 == k {
            assert(s[s.len() - 1].0 == k);
        } else {
            if device_map(s).contains_key(k) {
                let i = choose|i: int|
                    0 <= i < s.drop_last().len() && (#[trigger] s.drop_last()[i]).0 == k;
                assert(s[i].0 == k);
            }
            if exists|i: int| 0 <= i < s.len() && (#[trigger] s[i]).0 == k {
                let i = choose|i: int| 0 <= i < s.len() && (#[trigger] s[i]).0 == k;
                assert(i < s.len() - 1);
                assert(s.drop_last()[i].0 == k);
            }
        }
    }
}

proof fn lemma_device_map_at(s: Seq<(u64, AxisTracker)>, i: int)
    requires
        0 <= i < s.len(),
        forall|j: int| i < j < s.len() ==> (#[trigger] s[j]).0 != s[i].0,
    ensures
        device_map(s).contains_key(s[i].0),
        device_map(s)[s[i].0] == s[i].1@,
    decreases s.len(),
{
    if i < s.len() - 1 {
        lemma_device_map_at(s.drop_last(), i);
        assert(s.drop_last()[i] == s[i]);
        assert(s.last().0 != s[i].0);
    }
}

proof fn lemma_device_map_update(s: Seq<(u64, AxisTracker)>, i: int, t: AxisTracker)
    requires
        0 <= i < s.len(),
        device_unique_keys(s),
    ensures
        device_map(s.update(i, (s[i].0, t))) == device_map(s).insert(s[i].0, t@),
    decreases s.len(),
{
    let u = s.update(i, (s[i].0, t));
    if i == s.len() - 1 {
        assert(u.drop_last() =~= s.drop_last());
        assert(device_map(u) =~= device_map(s).insert(s[i].0, t@));
    } else {
        lemma_device_map_update(s.drop_last(), i, t);
        assert(u.drop_last() =~= s.drop_last().update(i, (s[i].0, t)));
        assert(u.last() == s.last());
        assert(s.last().0 != s[i].0);
        assert(device_map(u) =~= device_map(s).insert(s[i].0, t@));
    }
}

/// Every connected device's axis tracker, keyed by device identifier,
/// maintained by the tick driver: a tracker is created when a device is
/// seen without one, and an axis event for a device that has no tracker yet
/// is silently dropped (a transient race between connect and first event,
/// not an error).
pub struct DeviceTrackers {
    entries: Vec<(u64, AxisTracker)>,
}

impl View for DeviceTrackers {
    type V = Map<u64, Map<GamepadAxis, i32>>;

    closed spec fn view(&self) -> Map<u64, Map<GamepadAxis, i32>> {
        device_map(self.entries@)
    }
}

impl DeviceTrackers {
    pub closed spec fn wf(self) -> bool {
        device_unique_keys(self.entries@) && forall|i: int|
            0 <= i < self.entries@.len() ==> (#[trigger] self.entries@[i]).1.wf()
    }

    /// No devices yet.
    pub fn new() -> (r: DeviceTrackers)
        ensures
            r.wf(),
            r@ == Map::<u64, Map<GamepadAxis, i32>>::empty(),
    {
        DeviceTrackers { entries: Vec::new() }
    }

    /// Gives `device` a fresh tracker if it lacks one; a device that already
    /// has a tracker keeps it untouched. Called whenever a connected device
    /// without a tracker is noticed, so that no first crossing is missed.
    pub fn ensure_tracker(&mut self, device: u64)
        requires
            old(self).wf(),
        ensures
            final(self).wf(),
            final(self)@ == (if old(self)@.contains_key(device) {
                old(self)@
            } else {
                old(self)@.insert(device, Map::<GamepadAxis, i32>::empty())
            }),
    {
        proof {
            lemma_device_map_contains(self.entries@, device);
        }
        let n: usize = self.entries.len();
        let mut i: usize = 0;
        while i < n
            invariant
                n == self.entries@.len(),
                i <= n,
                self.wf(),
                self.entries@ == old(self).entries@,
                forall|j: int| 0 <= j < i ==> (#[trigger] self.entries@[j]).0 != device,
            decreases n - i,
        {
            if self.entries[i].0 == device {
                proof {
                    lemma_device_map_contains(self.entries@, device);
                    assert(old(self).entries@[i as int].0 == device);
                }
                return;
            }
            i = i + 1;
        }
        self.entries.push((device, AxisTracker::new()));
        proof {
            assert(self.entries@.drop_last() =~= old(self).entries@);
        }
    }

    /// Records one axis-change event: stores the new value in the device's
    /// tracker and hands back the previously seen value (0 on an axis's
    /// first report). A device without a tracker gets `None`: the event is
    /// dropped and nothing changes.
    pub fn record_axis(&mut self, device: u64, axis: GamepadAxis, value: i32) -> (prev: Option<
        i32,
    >)
        requires
            old(self).wf(),
        ensures
            final(self).wf(),
            old(self)@.contains_key(device) ==> {
                &&& prev == Some(last_seen(old(self)@[device], axis))
                &&& final(self)@ == old(self)@.insert(device, old(self)@[device].insert(axis, value))
            },
            !old(self)@.contains_key(device) ==> {
                &&& prev == None::<i32>
                &&& final(self)@ == old(self)@
            },
    {
        proof {
            lemma_device_map_contains(self.entries@, device);
        }
        let n: usize = self.entries.len();
        let mut i: usize = 0;
        while i < n
            invariant
                n == self.entries@.len(),
                i <= n,
                self.wf(),
                self.entries@ == old(self).entries@,
                forall|j: int| 0 <= j < i ==> (#[trigger] self.entries@[j]).0 != device,
            decreases n - i,
        {
            if self.entries[i].0 == device {
                proof {
                    lemma_device_map_at(self.entries@, i as int);
                }
                let mut e = self.entries.remove(i);
                let p = e.1.record(axis, value);
                proof {
                    lemma_device_map_update(old(self).entries@, i as int, e.1);
                }
                self.entries.insert(i, e);
                proof {
                    assert(self.entries@ =~= old(self).entries@.update(
                        i as int,
                        (old(self).entries@[i as int].0, self.entries@[i as int].1),
                    ));
                }
                return Some(p);
            }
            i = i + 1;
        }
        None
    }
}

} // verus!
