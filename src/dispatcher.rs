//! Change dispatch for the one target sensor: decode its payload, merge what
//! is new into the last known reading, and say when the observer is owed a
//! call.
use vstd::prelude::*;
use crate::device::{BleDevice, DeviceView};
use crate::payload::{decoded_reading, parse_mijia_bt_data};
use crate::mijiabt_data::{MijiaBtData, Reading, merged_reading, reading_changed};

verus! {

/// The device name and the service UUID that identify the target sensor.
pub struct TargetConfig {
    pub device_name: String,
    pub service_uuid: String,
}

impl TargetConfig {
    /// A configuration for the sensor named `device_name` that advertises its
    /// payload under `service_uuid`.
    pub fn new(device_name: String, service_uuid: String) -> (r: TargetConfig)
        ensures
            r.device_name@ == device_name@,
            r.service_uuid@ == service_uuid@,
    {
        TargetConfig { device_name, service_uuid }
    }
}

/// Whether `device` is the target: its name is `name` and it advertises data
/// under `uuid`.
pub open spec fn is_target(name: Seq<char>, uuid: Seq<char>, device: DeviceView) -> bool {
    device.local_name == name && device.service_data.contains_key(uuid)
}

/// The reading that the target's payload under `uuid` stands for.
pub open spec fn target_reading(uuid: Seq<char>, device: DeviceView) -> Reading {
    decoded_reading(device.service_data[uuid])
}

/// The state after handing `readings` in order to a dispatcher whose last
/// reading is `last`: the merged reading and how many times the observer was
/// owed a call.
pub open spec fn after_readings(last: Reading, readings: Seq<Reading>) -> (Reading, nat)
    decreases readings.len(),
{
    if readings.len() == 0 {
        (last, 0)
    } else {
        let (before, count) = after_readings(last, readings.drop_last());
        let new = readings.last();
        if reading_changed(before, new) {
            (merged_reading(before, new), count + 1)
        } else {
            (before, count)
        }
    }
}

/// What handling an update of `device` does to a dispatcher `before`: for
/// the target, a reading that brings a change is merged and owes the observer
/// a call; anything else leaves the dispatcher as it was.
pub open spec fn dispatched(before: ChangeDispatcher, device: DeviceView, notify: bool, after: ChangeDispatcher) -> bool {
    &&& after.name() == before.name()
    &&& after.uuid() == before.uuid()
    &&& if is_target(before.name(), before.uuid(), device) {
        let new = target_reading(before.uuid(), device);
        &&& notify == reading_changed(before.last(), new)
        &&& after.last() == if notify {
            merged_reading(before.last(), new)
        } else {
            before.last()
        }
    } else {
        !notify && after.last() == before.last()
    }
}

/// Holds the last reading delivered for the target sensor.
pub struct ChangeDispatcher {
    target: TargetConfig,
    current: MijiaBtData,
}

impl ChangeDispatcher {
    /// The target's name.
    pub closed spec fn name(&self) -> Seq<char> {
        self.target.device_name@
    }

    /// The target's service UUID.
    pub closed spec fn uuid(&self) -> Seq<char> {
        self.target.service_uuid@
    }

    /// The last reading delivered.
    pub closed spec fn last(&self) -> Reading {
        self.current@
    }

    /// A dispatcher for `target` that has delivered nothing: its reading is
    /// `(0, 0)`.
    pub fn new(target: TargetConfig) -> (r: ChangeDispatcher)
        ensures
            r.name() == target.device_name@,
            r.uuid() == target.service_uuid@,
            r.last() == (0u16, 0u16),
    {
        ChangeDispatcher { target, current: MijiaBtData::new(0, 0) }
    }

    /// The last reading delivered.
    pub fn current(&self) -> (r: &MijiaBtData)
        ensures
            r@ == self.last(),
    {
        &self.current
    }

    /// Handles an update of `device`. For the target, its payload is decoded
    /// and, when that brings a change, merged into the last reading; the
    /// result says whether the observer is to be called with `current()`.
    pub fn on_device_update(&mut self, device: &BleDevice) -> (notify: bool)
        ensures
            dispatched(*old(self), device@, notify, *final(self)),
    {
        if device.local_name != self.target.device_name {
            return false;
        }
        match device.service_data.get(&self.target.service_uuid) {
            Some(payload) => {
                let new = parse_mijia_bt_data(payload);
                self.current.merge(new)
            },
            None => false,
        }
    }
}

/// A run of identical readings owes the observer one call at most: one when
/// the reading differs from the last delivered one, none otherwise.
pub proof fn lemma_repeated_reading_notifies_once(last: Reading, reading: Reading, readings: Seq<Reading>)
    requires
        readings.len() >= 1,
        forall|i: int| 0 <= i < readings.len() ==> readings[i] == reading,
    ensures
        after_readings(last, readings).1 == (if reading_changed(last, reading) { 1nat } else { 0nat }),
        !reading_changed(after_readings(last, readings).0, reading),
    decreases readings.len(),
{
    if readings.len() > 1 {
        let shorter = readings.drop_last();
        lemma_repeated_reading_notifies_once(last, reading, shorter);
        assert(readings.last() == reading);
    } else {
        assert(readings.drop_last().len() == 0);
        assert(after_readings(last, readings.drop_last()) == (last, 0nat));
        assert(readings.last() == reading);
    }
}

/// Readings that carry both fields and alternate between two distinct values
/// each owe the observer a call, once the first one brings a change; the last
/// reading delivered is then the last one handed in.
pub proof fn lemma_alternating_readings_notify_each(last: Reading, a: Reading, b: Reading, readings: Seq<Reading>)
    requires
        readings.len() >= 1,
        a != b,
        a.0 != 0 && a.1 != 0 && b.0 != 0 && b.1 != 0,
        reading_changed(last, a),
        forall|i: int| 0 <= i < readings.len() ==> readings[i] == if i % 2 == 0 { a } else { b },
    ensures
        after_readings(last, readings) == (readings.last(), readings.len()),
    decreases readings.len(),
{
    let n = readings.len() as int;
    if n > 1 {
        let shorter = readings.drop_last();
        lemma_alternating_readings_notify_each(last, a, b, shorter);
        assert(shorter.last() == readings[n - 2]);
        if (n - 1) % 2 == 0 {
            assert((n - 2) % 2 == 1);
        } else {
            assert((n - 2) % 2 == 0);
        }
    } else {
        assert(readings.drop_last().len() == 0);
        assert(after_readings(last, readings.drop_last()) == (last, 0nat));
        assert(readings[0] == a);
    }
}

} // verus!
