//! Decoder for the single-wire, pulse-width encoded protocol of the DHT11
//! temperature and humidity sensor.
//!
//! The library holds everything that is decided or computed during one
//! exchange with the sensor: the cycle arithmetic of the microsecond delay,
//! the transition function of the protocol, the classification of pulses into
//! bits, and the validation of the received frame. Touching the line and
//! letting time pass is left to the caller, who performs the action that the
//! driver asks for and reports back what happened.

pub mod bits;
pub mod driver;
pub mod dwt_delay;
pub mod frame;
pub mod line;
pub mod protocol;
pub mod reading;
pub mod replay;

pub use driver::Dht11;
pub use dwt_delay::DwtDelay;
pub use reading::{DhtError, DhtReading};
