//! Readings of a DHT11 temperature and humidity sensor.

use vstd::prelude::*;

verus! {

/// The sensor gave no valid reading.
#[derive(Debug)]
pub struct DhtError;

/// The reading to show: the latest one as `(temperature, humidity)`, or
/// zero for both as long as the sensor has given none.
pub fn latest_reading(data: Option<(u8, u8)>) -> (shown: (u8, u8))
    ensures
        shown == match data {
            Some(reading) => reading,
            None => (0u8, 0u8),
        },
{
    if let Some((temperature, humidity)) = data {
        (temperature, humidity)
    } else {
        (0, 0)
    }
}

} // verus!
