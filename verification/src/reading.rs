//! Sensor samples: the raw form a sensor driver reports, and the converted
//! form in real units that the sampling window works on.

use vstd::prelude::*;

verus! {

/// Number of fixed-point steps per unit: converted values are held in tenths.
pub const STEPS_PER_UNIT: i32 = 10;

/// A raw temperature is this many times the temperature in degrees Celsius.
pub const RAW_TEMPERATURE_PER_DEGREE: i32 = 2;

/// A raw humidity is this many times the relative humidity in percent.
pub const RAW_HUMIDITY_PER_PERCENT: i32 = 10;

/// One unprocessed sample in the sensor's native units.
#[derive(Clone, Copy, Debug, PartialEq, Eq, Structural)]
pub struct RawReading {
    /// Temperature as the sensor encodes it.
    pub temperature: i16,
    /// Relative humidity as the sensor encodes it.
    pub humidity: u16,
}

/// One sample in real units, as fixed point with one fractional digit.
#[derive(Clone, Copy, Debug, PartialEq, Eq, Structural)]
pub struct Reading {
    /// Temperature in tenths of a degree Celsius.
    pub temperature: i32,
    /// Relative humidity in tenths of a percent.
    pub humidity: i32,
}

impl RawReading {
    /// The sample in real units, in tenths: the raw temperature divided by
    /// `RAW_TEMPERATURE_PER_DEGREE` and the raw humidity divided by
    /// `RAW_HUMIDITY_PER_PERCENT`. Both quotients are exact in tenths.
    pub open spec fn converted(self) -> Reading {
        Reading {
            temperature: (self.temperature * STEPS_PER_UNIT / RAW_TEMPERATURE_PER_DEGREE as int)
                as i32,
            humidity: (self.humidity * STEPS_PER_UNIT / RAW_HUMIDITY_PER_PERCENT as int) as i32,
        }
    }

    /// Converts the sample to real units. No sample is refused, and nothing
    /// is rounded.
    pub fn convert(&self) -> (reading: Reading)
        ensures
            reading == self.converted(),
            reading.temperature * RAW_TEMPERATURE_PER_DEGREE == self.temperature * STEPS_PER_UNIT,
            reading.humidity * RAW_HUMIDITY_PER_PERCENT == self.humidity * STEPS_PER_UNIT,
    {
        let temperature: i32 = self.temperature as i32;
        let humidity: i32 = self.humidity as i32;
        Reading {
            temperature: temperature * (STEPS_PER_UNIT / RAW_TEMPERATURE_PER_DEGREE),
            humidity,
        }
    }
}

} // verus!
