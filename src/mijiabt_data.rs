//! The last known sensor reading and the rule by which a new one is merged.
use vstd::prelude::*;

verus! {

/// A reading as `(temperature, humidity)`, in tenths of a unit.
pub type Reading = (u16, u16);

/// Whether `new` brings a value that differs from `last`; a `0` field is a
/// measurement absent from this update and never counts as a change.
pub open spec fn reading_changed(last: Reading, new: Reading) -> bool {
    (new.0 != last.0 && new.0 != 0) || (new.1 != last.1 && new.1 != 0)
}

/// `last` with each field that is nonzero in `new` taken from `new`.
pub open spec fn merged_reading(last: Reading, new: Reading) -> Reading {
    (if new.0 != 0 { new.0 } else { last.0 }, if new.1 != 0 { new.1 } else { last.1 })
}

/// The sensor's temperature and humidity, in tenths of a unit.
#[derive(Debug)]
pub struct MijiaBtData {
    /// The temperature of the thermometer.
    temperature: u16,
    /// The humidity of the thermometer.
    humidity: u16,
}

impl View for MijiaBtData {
    type V = Reading;

    closed spec fn view(&self) -> Reading {
        (self.temperature, self.humidity)
    }
}

impl MijiaBtData {
    /// Creates a reading from its two values.
    pub fn new(temperature: u16, humidity: u16) -> (r: MijiaBtData)
        ensures
            r@ == (temperature, humidity),
    {
        MijiaBtData { temperature, humidity }
    }

    /// Stores both values.
    pub fn update(&mut self, temperature: u16, humidity: u16)
        ensures
            final(self)@ == (temperature, humidity),
    {
        self.temperature = temperature;
        self.humidity = humidity;
    }

    /// Returns `(temperature, humidity)`; divide each by 10 for the physical
    /// value.
    pub fn get(&self) -> (r: (u16, u16))
        ensures
            r == self@,
    {
        (self.temperature, self.humidity)
    }

    /// Merges `new` into this reading when it brings a change, and says
    /// whether it did. A zero field of `new` never replaces a known value.
    pub fn merge(&mut self, new: Reading) -> (changed: bool)
        ensures
            changed == reading_changed(old(self)@, new),
            final(self)@ == (if changed { merged_reading(old(self)@, new) } else { old(self)@ }),
            new.0 == 0 ==> final(self)@.0 == old(self)@.0,
            new.1 == 0 ==> final(self)@.1 == old(self)@.1,
    {
        let (current_temperature, current_humidity) = self.get();
        let changed = (current_temperature != new.0 && new.0 != 0) || (current_humidity != new.1
            && new.1 != 0);
        if changed {
            let temperature = if new.0 != 0 {
                new.0
            } else {
                current_temperature
            };
            let humidity = if new.1 != 0 {
                new.1
            } else {
                current_humidity
            };
            self.update(temperature, humidity);
        }
        changed
    }
}

/// A plain copy of a reading, for handing out.
#[derive(Debug, Clone, Copy, PartialEq, Eq, Structural)]
pub struct MijiaBtDataDto {
    pub temperature: u16,
    pub humidity: u16,
}

impl MijiaBtDataDto {
    /// Creates a copy from its two values.
    pub fn new(temperature: u16, humidity: u16) -> (r: MijiaBtDataDto)
        ensures
            r.temperature == temperature,
            r.humidity == humidity,
    {
        MijiaBtDataDto { temperature, humidity }
    }
}

} // verus!
