//! Time, date and alarm records as the real-time clock exchanges them, and
//! the two-digit decimal form in which the clock hardware keeps each field.

use vstd::prelude::*;

verus! {

/// Time and date in plain decimal.
#[derive(Debug, Clone, Copy, PartialEq, Eq, Structural)]
pub struct ClockState {
    pub hour: u8,
    pub minute: u8,
    pub second: u8,
    pub weekday: u8,
    pub day: u8,
    pub month: u8,
    pub year: u8,
}

impl Default for ClockState {
    /// Midnight on Monday, the first of January of year zero.
    fn default() -> (s: Self)
        ensures
            s == (ClockState {
                hour: 0,
                minute: 0,
                second: 0,
                weekday: 1,
                day: 1,
                month: 1,
                year: 0,
            }),
    {
        ClockState { hour: 0, minute: 0, second: 0, weekday: 1, day: 1, month: 1, year: 0 }
    }
}

/// Alarm time and whether the alarm is armed.
#[derive(Debug, Clone, Copy, PartialEq, Eq, Structural)]
pub struct AlarmState {
    pub hour: u8,
    pub minute: u8,
    pub enabled: bool,
}

/// The main loop's working copy of the clock and alarm, which panels edit.
#[derive(Debug, Clone, Copy, PartialEq, Eq, Structural)]
pub struct SharedState {
    pub clock: ClockState,
    pub alarm: AlarmState,
}

/// The tens and units digits of a field, as the clock registers hold them.
pub fn to_digits(value: u8) -> (digits: (u8, u8))
    ensures
        digits.0 == value / 10,
        digits.1 == value % 10,
        digits.1 < 10,
        digits.0 * 10 + digits.1 == value,
{
    (value / 10, value % 10)
}

/// The field that a tens and a units digit stand for, or `None` where it
/// does not fit a byte.
pub fn from_digits(tens: u8, units: u8) -> (value: Option<u8>)
    ensures
        tens * 10 + units <= 255 ==> value == Some((tens * 10 + units) as u8),
        tens * 10 + units > 255 ==> value is None,
{
    match tens.checked_mul(10) {
        Some(t) => t.checked_add(units),
        None => None,
    }
}

/// Splitting a field into digits and joining them again gives the field back.
pub proof fn lemma_digits_round_trip(value: u8)
    ensures
        (value / 10) * 10 + value % 10 == value,
        (value / 10) * 10 + value % 10 <= 255,
{
}

} // verus!
