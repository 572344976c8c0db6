//! The time of day that the clock face shows, one second after another.

use vstd::prelude::*;

verus! {

/// Whether the three numbers are a time of day on a 24-hour clock.
pub open spec fn is_time(hours: u8, minutes: u8, seconds: u8) -> bool {
    hours < 24 && minutes < 60 && seconds < 60
}

/// The seconds since midnight at the given time.
pub open spec fn second_of_day(hours: u8, minutes: u8, seconds: u8) -> int {
    hours * 3600 + minutes * 60 + seconds
}

/// The time one second later. After the last second of a minute the seconds
/// start over and the minute goes up, after the last minute of an hour the
/// minutes start over and the hour goes up, and after hour 23 the hours
/// start over. A number at or above its last value counts as the last.
pub open spec fn spec_next_second(hours: u8, minutes: u8, seconds: u8) -> (u8, u8, u8) {
    if seconds < 59 {
        (hours, minutes, (seconds + 1) as u8)
    } else if minutes < 59 {
        (hours, (minutes + 1) as u8, 0)
    } else if hours < 23 {
        ((hours + 1) as u8, 0, 0)
    } else {
        (0, 0, 0)
    }
}

#[verifier::when_used_as_spec(spec_next_second)]
pub fn next_second(hours: u8, minutes: u8, seconds: u8) -> (next: (u8, u8, u8))
    ensures
        next == spec_next_second(hours, minutes, seconds),
{
    let mut hours = hours;
    let mut minutes = minutes;
    let mut seconds = seconds;
    if seconds >= 59 {
        seconds = 0;
        if minutes >= 59 {
            minutes = 0;
            if hours >= 23 {
                hours = 0;
            } else {
                hours += 1;
            }
        } else {
            minutes += 1;
        }
    } else {
        seconds += 1;
    }
    (hours, minutes, seconds)
}

/// One second after a time of day it is a time of day again, one second
/// further from midnight, and midnight after the last second of the day.
pub proof fn lemma_next_second_counts(hours: u8, minutes: u8, seconds: u8)
    requires
        is_time(hours, minutes, seconds),
    ensures
        ({
            let (h, m, s) = next_second(hours, minutes, seconds);
            &&& is_time(h, m, s)
            &&& second_of_day(h, m, s) == (second_of_day(hours, minutes, seconds) + 1) % 86400
        }),
{
}

} // verus!
