//! Times of day.

use chrono::Timelike;
use vstd::prelude::*;

verus! {

/// A time of day to the second.
#[derive(Debug, Clone, Copy, PartialEq, Eq)]
pub struct ClockTime {
    pub hour: u8,
    pub minute: u8,
    pub second: u8,
}

impl ClockTime {
    /// Whether the three numbers lie within a civil day.
    pub open spec fn is_valid(&self) -> bool {
        self.hour < 24 && self.minute < 60 && self.second < 60
    }

    /// The time `hour:minute:second`, where that is a time of day.
    pub fn new(hour: u8, minute: u8, second: u8) -> (r: Option<ClockTime>)
        ensures
            r == time_of(hour as nat, minute as nat, second as nat),
    {
        if hour < 24 && minute < 60 && second < 60 {
            Some(ClockTime { hour, minute, second })
        } else {
            None
        }
    }
}

/// The time of day with the given numbers, `None` where one is out of range.
pub open spec fn time_of(hour: nat, minute: nat, second: nat) -> Option<ClockTime> {
    if hour < 24 && minute < 60 && second < 60 {
        Some(ClockTime { hour: hour as u8, minute: minute as u8, second: second as u8 })
    } else {
        None
    }
}

/// The time that a clock reading stands for. A reading is hour, minute,
/// second and nanoseconds into the second; one whose nanoseconds reach a
/// full second counts a second number 60 and is no time of day here.
pub open spec fn reading_time(reading: Option<(u32, u32, u32, u32)>) -> Option<ClockTime> {
    match reading {
        Some((hour, minute, second, nano)) => if nano < 1_000_000_000 {
            time_of(hour as nat, minute as nat, second as nat)
        } else {
            None
        },
        None => None,
    }
}

/// Turns a clock reading into a time of day.
pub fn time_from_reading(reading: Option<(u32, u32, u32, u32)>) -> (r: Option<ClockTime>)
    ensures
        r == reading_time(reading),
        r matches Some(t) ==> t.is_valid(),
{
    match reading {
        Some((hour, minute, second, nano)) => {
            if nano < 1_000_000_000 && hour < 24 && minute < 60 && second < 60 {
                Some(ClockTime { hour: hour as u8, minute: minute as u8, second: second as u8 })
            } else {
                None
            }
        },
        None => None,
    }
}

/// What `chrono` reads from `text` under `format`: hour, minute, second and
/// nanoseconds into the second, or `None` where `text` does not parse.
pub uninterp spec fn clock_reading(text: Seq<char>, format: Seq<char>) -> Option<
    (u32, u32, u32, u32),
>;

/// Parses `text` with `chrono::NaiveTime::parse_from_str` and reads the
/// result's `hour`, `minute`, `second` and `nanosecond`.
///
/// Believed, not proved: the result is a function of the two texts alone.
#[verifier::external_body]
pub(crate) fn read_clock(text: &str, format: &str) -> (r: Option<(u32, u32, u32, u32)>)
    ensures
        r == clock_reading(text@, format@),
{
    let time = chrono::NaiveTime::parse_from_str(text, format).ok()?;
    Some((time.hour(), time.minute(), time.second(), time.nanosecond()))
}

} // verus!
