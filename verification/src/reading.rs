//! What one exchange with the sensor yields: a reading or an error.

use vstd::prelude::*;

verus! {

/// Why an exchange with the sensor produced no reading.
#[derive(Debug, Clone, Copy, PartialEq, Eq, Structural)]
pub enum DhtError {
    /// An expected level change did not occur within the time allowed for it.
    Timeout,
    /// All forty bits arrived, but the last byte is not the sum of the first four.
    ChecksumError,
}

/// One validated measurement, in the sensor's own fixed-point form.
///
/// Each quantity is sent as two bytes, a whole part and a count of tenths.
/// Both are kept as received, so nothing is lost to rounding: humidity is
/// `humidity_integral + humidity_decimal / 10` percent, temperature is
/// `temperature_integral + temperature_decimal / 10` degrees Celsius.
#[derive(Debug, Clone, Copy, PartialEq, Eq, Structural)]
pub struct DhtReading {
    pub temperature_integral: u8,
    pub temperature_decimal: u8,
    pub humidity_integral: u8,
    pub humidity_decimal: u8,
}

impl DhtReading {
    /// Temperature in tenths of a degree Celsius.
    pub open spec fn temperature_in_tenths(self) -> int {
        10 * self.temperature_integral + self.temperature_decimal
    }

    /// Relative humidity in tenths of a percent.
    pub open spec fn humidity_in_tenths(self) -> int {
        10 * self.humidity_integral + self.humidity_decimal
    }

    /// Temperature in tenths of a degree Celsius.
    pub fn temperature_tenths(self) -> (tenths: u16)
        ensures
            tenths == self.temperature_in_tenths(),
    {
        let whole: u16 = self.temperature_integral as u16;
        let part: u16 = self.temperature_decimal as u16;
        10 * whole + part
    }

    /// Relative humidity in tenths of a percent.
    pub fn humidity_tenths(self) -> (tenths: u16)
        ensures
            tenths == self.humidity_in_tenths(),
    {
        let whole: u16 = self.humidity_integral as u16;
        let part: u16 = self.humidity_decimal as u16;
        10 * whole + part
    }
}

} // verus!
