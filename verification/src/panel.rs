//! Panels: the editable views that the encoder steps through, and the time
//! panel, which shows the clock and edits it field by field.

use crate::clock::SharedState;
use crate::display::Display;
use crate::display::DisplayOp;
use crate::display::Screen;
use vstd::prelude::*;

pub mod time;

verus! {

/// The panels that the appliance knows.
#[derive(Debug, Clone, Copy, PartialEq, Eq, Structural)]
pub enum Panels {
    Time,
    Alarm,
}

/// How the display is to mark the cursor, and where.
#[derive(Debug, Clone, Copy, PartialEq, Eq, Structural)]
pub enum CursorState {
    /// No cursor is shown.
    Off,
    /// An underline at a row and a column: a field is selected.
    Underline(u8, u8),
    /// A blinking block at a row and a column: a field is being edited.
    Blinking(u8, u8),
}

/// A view that the encoder steps through and that edits the shared state.
///
/// What a panel does to itself and to the shared state is given by the
/// functions `after_next` and `after_previous`, what it draws by `rendering`,
/// and how it marks the cursor by `cursor_state`.
pub trait Panel<D: Display>: Sized {
    /// Whether a field is being edited. A panel that does not say edits
    /// nothing.
    open spec fn editing(&self) -> bool {
        false
    }

    /// The panel and the shared state after one step forward. A panel that
    /// does not say has no fields to step through.
    open spec fn after_next(&self, state: SharedState) -> (Self, SharedState) {
        (*self, state)
    }

    /// The panel and the shared state after one step backward.
    open spec fn after_previous(&self, state: SharedState) -> (Self, SharedState) {
        (*self, state)
    }

    /// The panel after a press that starts or stops editing.
    open spec fn after_enter(&self) -> Self {
        *self
    }

    /// The panel after a press that leaves it.
    open spec fn after_leave(&self) -> Self {
        *self
    }

    /// The operations with which the panel draws itself. A panel that does
    /// not say draws nothing.
    open spec fn rendering(&self, state: SharedState) -> Seq<DisplayOp> {
        Seq::empty()
    }

    /// How the cursor is to be marked. A panel that does not say shows no
    /// cursor.
    open spec fn cursor_state(&self) -> CursorState {
        CursorState::Off
    }

    /// Steps forward: to the next field, or to the next value of the field
    /// that is being edited.
    fn next(&mut self, state: &mut SharedState)
        ensures
            (*final(self), *final(state)) == old(self).after_next(*old(state)),
            final(self).editing() == old(self).editing(),
            !old(self).editing() ==> *final(state) == *old(state),
    ;

    /// Steps backward: to the previous field, or to the previous value of
    /// the field that is being edited.
    fn previous(&mut self, state: &mut SharedState)
        ensures
            (*final(self), *final(state)) == old(self).after_previous(*old(state)),
            final(self).editing() == old(self).editing(),
            !old(self).editing() ==> *final(state) == *old(state),
    ;

    /// Starts editing the selected field, or stops editing it.
    fn enter(&mut self, state: &mut SharedState)
        ensures
            *final(self) == old(self).after_enter(),
            final(self).editing() == !old(self).editing(),
            *final(state) == *old(state),
    ;

    /// Stops editing.
    fn leave(&mut self, state: &mut SharedState)
        ensures
            *final(self) == old(self).after_leave(),
            !final(self).editing(),
            *final(state) == *old(state),
    ;

    /// Whether a field is being edited.
    fn is_editing(&self) -> (b: bool)
        ensures
            b == self.editing(),
    ;

    /// Draws the panel. A reliable display on which every cursor position of
    /// the drawing lies makes it succeed.
    fn display(&self, disp: &mut D, state: &mut SharedState) -> (r: Result<(), D::Error>)
        requires
            old(disp).screen().wf(),
        ensures
            *final(state) == *old(state),
            final(disp).screen().wf(),
            final(disp).screen().rows() == old(disp).screen().rows(),
            final(disp).screen().columns() == old(disp).screen().columns(),
            final(disp).reliable() == old(disp).reliable(),
            old(disp).reliable() && old(disp).screen().all_in_bounds(
                self.rendering(*old(state)),
            ) ==> r is Ok,
            r is Ok ==> final(disp).screen() == old(disp).screen().after_all(
                self.rendering(*old(state)),
            ),
    ;

    /// How the cursor is to be marked.
    fn get_cursor_state(&self, state: &SharedState) -> (c: CursorState)
        ensures
            c == self.cursor_state(),
    ;
}

/// Moves the cursor as operation `k` of the drawing `ops`, on a display that
/// has performed the operations before it.
pub(crate) fn draw_cursor<D: Display>(
    disp: &mut D,
    row: u8,
    column: u8,
    Ghost(start): Ghost<Screen>,
    Ghost(ops): Ghost<Seq<DisplayOp>>,
    Ghost(k): Ghost<int>,
) -> (r: Result<(), D::Error>)
    requires
        0 <= k < ops.len(),
        ops[k] == DisplayOp::SetCursor(row, column),
        old(disp).screen().wf(),
        old(disp).screen() == start.after_all(ops.subrange(0, k)),
    ensures
        final(disp).screen().wf(),
        final(disp).screen().rows() == old(disp).screen().rows(),
        final(disp).screen().columns() == old(disp).screen().columns(),
        final(disp).reliable() == old(disp).reliable(),
        old(disp).reliable() && old(disp).screen().in_bounds(ops[k]) ==> r is Ok,
        r is Ok ==> final(disp).screen() == start.after_all(ops.subrange(0, k + 1)),
{
    let r = disp.set_cursor_position(row, column);
    proof {
        assert(ops.subrange(0, k + 1).drop_last() =~= ops.subrange(0, k));
        assert(ops.subrange(0, k + 1).last() == ops[k]);
    }
    r
}

/// Writes characters as operation `k` of the drawing `ops`, on a display
/// that has performed the operations before it.
pub(crate) fn draw_text<D: Display>(
    disp: &mut D,
    text: &[u8],
    Ghost(start): Ghost<Screen>,
    Ghost(ops): Ghost<Seq<DisplayOp>>,
    Ghost(k): Ghost<int>,
) -> (r: Result<(), D::Error>)
    requires
        0 <= k < ops.len(),
        ops[k] == DisplayOp::Write(text@),
        old(disp).screen().wf(),
        old(disp).screen() == start.after_all(ops.subrange(0, k)),
    ensures
        final(disp).screen().wf(),
        final(disp).screen().rows() == old(disp).screen().rows(),
        final(disp).screen().columns() == old(disp).screen().columns(),
        final(disp).reliable() == old(disp).reliable(),
        old(disp).reliable() ==> r is Ok,
        r is Ok ==> final(disp).screen() == start.after_all(ops.subrange(0, k + 1)),
{
    let r = disp.write(text);
    proof {
        assert(ops.subrange(0, k + 1).drop_last() =~= ops.subrange(0, k));
        assert(ops.subrange(0, k + 1).last() == ops[k]);
    }
    r
}

/// The question mark, which stands for a value out of range.
pub const UNKNOWN: u8 = 0x3f;

/// The character `0`.
pub const ZERO: u8 = 0x30;

/// A switch that is on or off.
pub struct OnOffF {}

impl OnOffF {
    /// The name of a switch position.
    pub open spec fn name(state: bool) -> &'static str {
        if state {
            "ON"
        } else {
            "OFF"
        }
    }

    /// Flips the switch.
    pub fn next(state: &mut bool)
        ensures
            *final(state) == !*old(state),
    {
        *state = !*state
    }

    /// Flips the switch.
    pub fn previous(state: &mut bool)
        ensures
            *final(state) == !*old(state),
    {
        *state = !*state
    }

    /// The name of the switch position.
    pub fn get_str(state: bool) -> (s: &'static str)
        ensures
            s == Self::name(state),
    {
        match state {
            true => "ON",
            false => "OFF",
        }
    }
}

/// A decimal number between two bounds.
pub struct DecF {}

impl DecF {
    /// The value after `value` within `min..=max`: one more, and from `max`
    /// on round to `min`.
    pub open spec fn after(value: u8, min: u8, max: u8) -> u8 {
        if value >= max {
            min
        } else {
            (value + 1) as u8
        }
    }

    /// The value before `value` within `min..=max`: one less, and from `min`
    /// down round to `max`.
    pub open spec fn before(value: u8, min: u8, max: u8) -> u8 {
        if value <= min {
            max
        } else {
            (value - 1) as u8
        }
    }

    /// The characters that show `value`: one digit where `max` has one
    /// digit, else two digits where `max` is below 60; question marks for a
    /// value outside the bounds and for a larger `max`.
    pub open spec fn digits(value: u8, min: u8, max: u8) -> Seq<u8> {
        if max < 10 {
            if min <= value <= max {
                seq![(ZERO + value) as u8]
            } else {
                seq![UNKNOWN]
            }
        } else {
            if min <= value <= max && max < 60 {
                seq![(ZERO + value / 10) as u8, (ZERO + value % 10) as u8]
            } else {
                seq![UNKNOWN, UNKNOWN]
            }
        }
    }

    /// Steps to the next value, round from `max` to `min`.
    pub fn next(state: &mut u8, min: u8, max: u8)
        ensures
            *final(state) == Self::after(*old(state), min, max),
    {
        if *state >= max {
            *state = min
        } else {
            *state += 1
        }
    }

    /// Steps to the previous value, round from `min` to `max`.
    pub fn previous(state: &mut u8, min: u8, max: u8)
        ensures
            *final(state) == Self::before(*old(state), min, max),
    {
        if *state <= min {
            *state = max
        } else {
            *state -= 1
        }
    }

    /// The characters that show the value.
    pub fn get_str(state: u8, min: u8, max: u8) -> (s: Vec<u8>)
        ensures
            s@ == Self::digits(state, min, max),
    {
        let mut s: Vec<u8> = Vec::new();
        if max < 10 {
            if min <= state && state <= max {
                s.push(ZERO + state);
            } else {
                s.push(UNKNOWN);
            }
        } else {
            if min <= state && state <= max && max < 60 {
                s.push(ZERO + state / 10);
                s.push(ZERO + state % 10);
            } else {
                s.push(UNKNOWN);
                s.push(UNKNOWN);
            }
        }
        assert(s@ =~= Self::digits(state, min, max));
        s
    }
}

/// A day of the week, from 1 for Monday to 7 for Sunday.
pub struct WeekdayF {}

impl WeekdayF {
    /// The name of a day of the week.
    pub open spec fn name(state: u8) -> &'static str {
        if state == 1 {
            "MON"
        } else if state == 2 {
            "TUE"
        } else if state == 3 {
            "WED"
        } else if state == 4 {
            "THU"
        } else if state == 5 {
            "FRI"
        } else if state == 6 {
            "SAT"
        } else if state == 7 {
            "SUN"
        } else {
            "XXX"
        }
    }

    /// Steps to the next day, from Sunday round to Monday.
    pub fn next(state: &mut u8)
        ensures
            *final(state) == DecF::after(*old(state), 1, 7),
    {
        if *state >= 7 {
            *state = 1
        } else {
            *state += 1
        }
    }

    /// Steps to the previous day, from Monday round to Sunday.
    pub fn previous(state: &mut u8)
        ensures
            *final(state) == DecF::before(*old(state), 1, 7),
    {
        if *state <= 1 {
            *state = 7
        } else {
            *state -= 1
        }
    }

    /// The name of the day.
    pub fn get_str(state: u8) -> (s: &'static str)
        ensures
            s == Self::name(state),
    {
        match state {
            1 => "MON",
            2 => "TUE",
            3 => "WED",
            4 => "THU",
            5 => "FRI",
            6 => "SAT",
            7 => "SUN",
            _ => "XXX",
        }
    }
}

/// A month, from 1 for January to 12 for December.
pub struct MonthF {}

impl MonthF {
    /// The name of a month.
    pub open spec fn name(state: u8) -> &'static str {
        if state == 1 {
            "JAN"
        } else if state == 2 {
            "FEB"
        } else if state == 3 {
            "MAR"
        } else if state == 4 {
            "APR"
        } else if state == 5 {
            "MAY"
        } else if state == 6 {
            "JUN"
        } else if state == 7 {
            "JUL"
        } else if state == 8 {
            "AUG"
        } else if state == 9 {
            "SEP"
        } else if state == 10 {
            "OCT"
        } else if state == 11 {
            "NOV"
        } else if state == 12 {
            "DEC"
        } else {
            "XXX"
        }
    }

    /// Steps to the next month, from December round to January.
    pub fn next(state: &mut u8)
        ensures
            *final(state) == DecF::after(*old(state), 1, 12),
    {
        if *state >= 12 {
            *state = 1
        } else {
            *state += 1
        }
    }

    /// Steps to the previous month, from January round to December.
    pub fn previous(state: &mut u8)
        ensures
            *final(state) == DecF::before(*old(state), 1, 12),
    {
        if *state <= 1 {
            *state = 12
        } else {
            *state -= 1
        }
    }

    /// The name of the month.
    pub fn get_str(state: u8) -> (s: &'static str)
        ensures
            s == Self::name(state),
    {
        match state {
            1 => "JAN",
            2 => "FEB",
            3 => "MAR",
            4 => "APR",
            5 => "MAY",
            6 => "JUN",
            7 => "JUL",
            8 => "AUG",
            9 => "SEP",
            10 => "OCT",
            11 => "NOV",
            12 => "DEC",
            _ => "XXX",
        }
    }
}

/// Wraparound: within its bounds, a field steps from its largest value to its
/// smallest and back, and everywhere else by one.
pub proof fn lemma_field_wraparound(value: u8, min: u8, max: u8)
    requires
        min <= value <= max,
    ensures
        DecF::after(max, min, max) == min,
        DecF::before(min, min, max) == max,
        value < max ==> DecF::after(value, min, max) == value + 1,
        value > min ==> DecF::before(value, min, max) == value - 1,
        min <= DecF::after(value, min, max) <= max,
        min <= DecF::before(value, min, max) <= max,
        DecF::before(DecF::after(value, min, max), min, max) == value,
        DecF::after(DecF::before(value, min, max), min, max) == value,
{
}

} // verus!
