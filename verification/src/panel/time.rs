//! The time panel: shows the clock, and steps through its fields or through
//! the values of the field that is being edited.

use crate::clock::ClockState;
use crate::clock::SharedState;
use crate::display::Display;
use crate::display::DisplayOp;
use crate::panel::draw_cursor;
use crate::panel::draw_text;
use crate::panel::CursorState;
use crate::panel::DecF;
use crate::panel::MonthF;
use crate::panel::Panel;
use crate::panel::WeekdayF;
use vstd::prelude::*;
use vstd::string::StringSliceAdditionalSpecFns;

verus! {

/// A field of the clock.
#[derive(Debug, Clone, Copy, PartialEq, Eq, Structural)]
pub enum SelectedField {
    Hour,
    Minute,
    Second,
    Weekday,
    Day,
    Month,
    Year,
}

impl SelectedField {
    /// The field after this one; after the year comes the hour.
    pub open spec fn following(self) -> SelectedField {
        match self {
            SelectedField::Hour => SelectedField::Minute,
            SelectedField::Minute => SelectedField::Second,
            SelectedField::Second => SelectedField::Weekday,
            SelectedField::Weekday => SelectedField::Day,
            SelectedField::Day => SelectedField::Month,
            SelectedField::Month => SelectedField::Year,
            SelectedField::Year => SelectedField::Hour,
        }
    }

    /// The field before this one; before the hour comes the year.
    pub open spec fn preceding(self) -> SelectedField {
        match self {
            SelectedField::Hour => SelectedField::Year,
            SelectedField::Minute => SelectedField::Hour,
            SelectedField::Second => SelectedField::Minute,
            SelectedField::Weekday => SelectedField::Second,
            SelectedField::Day => SelectedField::Weekday,
            SelectedField::Month => SelectedField::Day,
            SelectedField::Year => SelectedField::Month,
        }
    }

    /// Row of the cell at which the cursor marks the field.
    pub open spec fn row(self) -> u8 {
        match self {
            SelectedField::Hour | SelectedField::Minute | SelectedField::Second => 2,
            _ => 3,
        }
    }

    /// Column of the cell at which the cursor marks the field.
    pub open spec fn column(self) -> u8 {
        match self {
            SelectedField::Hour => 4,
            SelectedField::Minute => 7,
            SelectedField::Second => 10,
            SelectedField::Weekday => 4,
            SelectedField::Day => 7,
            SelectedField::Month => 11,
            SelectedField::Year => 16,
        }
    }

    /// The clock with this field stepped forward within its bounds.
    pub open spec fn stepped_forward(self, clock: ClockState) -> ClockState {
        match self {
            SelectedField::Hour => ClockState { hour: DecF::after(clock.hour, 0, 23), ..clock },
            SelectedField::Minute => ClockState {
                minute: DecF::after(clock.minute, 0, 59),
                ..clock
            },
            SelectedField::Second => ClockState {
                second: DecF::after(clock.second, 0, 59),
                ..clock
            },
            SelectedField::Weekday => ClockState {
                weekday: DecF::after(clock.weekday, 1, 7),
                ..clock
            },
            SelectedField::Day => ClockState { day: DecF::after(clock.day, 1, 31), ..clock },
            SelectedField::Month => ClockState { month: DecF::after(clock.month, 1, 12), ..clock },
            SelectedField::Year => ClockState { year: DecF::after(clock.year, 0, 40), ..clock },
        }
    }

    /// The clock with this field stepped backward within its bounds.
    pub open spec fn stepped_backward(self, clock: ClockState) -> ClockState {
        match self {
            SelectedField::Hour => ClockState { hour: DecF::before(clock.hour, 0, 23), ..clock },
            SelectedField::Minute => ClockState {
                minute: DecF::before(clock.minute, 0, 59),
                ..clock
            },
            SelectedField::Second => ClockState {
                second: DecF::before(clock.second, 0, 59),
                ..clock
            },
            SelectedField::Weekday => ClockState {
                weekday: DecF::before(clock.weekday, 1, 7),
                ..clock
            },
            SelectedField::Day => ClockState { day: DecF::before(clock.day, 1, 31), ..clock },
            SelectedField::Month => ClockState {
                month: DecF::before(clock.month, 1, 12),
                ..clock
            },
            SelectedField::Year => ClockState { year: DecF::before(clock.year, 0, 40), ..clock },
        }
    }
}

/// The operations that draw the clock: the title in the first row, the time
/// in the third, and weekday, day, month and year in the fourth.
pub open spec fn time_rendering(clock: ClockState) -> Seq<DisplayOp> {
    seq![
        DisplayOp::SetCursor(0, 0),
        DisplayOp::Write("Time".spec_bytes()),
        DisplayOp::SetCursor(2, 3),
        DisplayOp::Write(DecF::digits(clock.hour, 0, 23)),
        DisplayOp::Write(":".spec_bytes()),
        DisplayOp::Write(DecF::digits(clock.minute, 0, 59)),
        DisplayOp::Write(":".spec_bytes()),
        DisplayOp::Write(DecF::digits(clock.second, 0, 59)),
        DisplayOp::SetCursor(3, 2),
        DisplayOp::Write(WeekdayF::name(clock.weekday).spec_bytes()),
        DisplayOp::SetCursor(3, 6),
        DisplayOp::Write(DecF::digits(clock.day, 1, 31)),
        DisplayOp::SetCursor(3, 9),
        DisplayOp::Write(MonthF::name(clock.month).spec_bytes()),
        DisplayOp::SetCursor(3, 13),
        DisplayOp::Write("20".spec_bytes()),
        DisplayOp::Write(DecF::digits(clock.year, 0, 40)),
    ]
}

/// The panel that shows and edits the clock.
#[derive(Debug, Clone, Copy, PartialEq, Eq, Structural)]
pub struct TimePanel {
    /// Whether the selected field is being edited.
    pub in_edit: bool,
    /// The field that the cursor marks.
    pub selected: SelectedField,
}

impl TimePanel {
    /// Creates the panel with the hour selected and nothing being edited.
    pub fn new() -> (p: Self)
        ensures
            p == (TimePanel { in_edit: false, selected: SelectedField::Hour }),
    {
        TimePanel { in_edit: false, selected: SelectedField::Hour }
    }
}

impl<D: Display> Panel<D> for TimePanel {
    open spec fn editing(&self) -> bool {
        self.in_edit
    }

    open spec fn after_next(&self, state: SharedState) -> (Self, SharedState) {
        if self.in_edit {
            (*self, SharedState { clock: self.selected.stepped_forward(state.clock), ..state })
        } else {
            (TimePanel { selected: self.selected.following(), ..*self }, state)
        }
    }

    open spec fn after_previous(&self, state: SharedState) -> (Self, SharedState) {
        if self.in_edit {
            (*self, SharedState { clock: self.selected.stepped_backward(state.clock), ..state })
        } else {
            (TimePanel { selected: self.selected.preceding(), ..*self }, state)
        }
    }

    open spec fn after_enter(&self) -> Self {
        TimePanel { in_edit: !self.in_edit, ..*self }
    }

    open spec fn after_leave(&self) -> Self {
        TimePanel { in_edit: false, ..*self }
    }

    open spec fn rendering(&self, state: SharedState) -> Seq<DisplayOp> {
        time_rendering(state.clock)
    }

    open spec fn cursor_state(&self) -> CursorState {
        if self.in_edit {
            CursorState::Blinking(self.selected.row(), self.selected.column())
        } else {
            CursorState::Underline(self.selected.row(), self.selected.column())
        }
    }

    fn enter(&mut self, _state: &mut SharedState) {
        self.in_edit = !self.in_edit;
    }

    fn leave(&mut self, _state: &mut SharedState) {
        self.in_edit = false;
    }

    fn is_editing(&self) -> (b: bool) {
        self.in_edit
    }

    fn next(&mut self, state: &mut SharedState) {
        if self.in_edit {
            match self.selected {
                SelectedField::Hour => DecF::next(&mut state.clock.hour, 0, 23),
                SelectedField::Minute => DecF::next(&mut state.clock.minute, 0, 59),
                SelectedField::Second => DecF::next(&mut state.clock.second, 0, 59),
                SelectedField::Weekday => WeekdayF::next(&mut state.clock.weekday),
                SelectedField::Day => DecF::next(&mut state.clock.day, 1, 31),
                SelectedField::Month => MonthF::next(&mut state.clock.month),
                SelectedField::Year => DecF::next(&mut state.clock.year, 0, 40),
            }
        } else {
            self.selected =
            match self.selected {
                SelectedField::Hour => SelectedField::Minute,
                SelectedField::Minute => SelectedField::Second,
                SelectedField::Second => SelectedField::Weekday,
                SelectedField::Weekday => SelectedField::Day,
                SelectedField::Day => SelectedField::Month,
                SelectedField::Month => SelectedField::Year,
                SelectedField::Year => SelectedField::Hour,
            }
        }
    }

    fn previous(&mut self, state: &mut SharedState) {
        if self.in_edit {
            match self.selected {
                SelectedField::Hour => DecF::previous(&mut state.clock.hour, 0, 23),
                SelectedField::Minute => DecF::previous(&mut state.clock.minute, 0, 59),
                SelectedField::Second => DecF::previous(&mut state.clock.second, 0, 59),
                SelectedField::Weekday => WeekdayF::previous(&mut state.clock.weekday),
                SelectedField::Day => DecF::previous(&mut state.clock.day, 1, 31),
                SelectedField::Month => MonthF::previous(&mut state.clock.month),
                SelectedField::Year => DecF::previous(&mut state.clock.year, 0, 40),
            }
        } else {
            self.selected =
            match self.selected {
                SelectedField::Hour => SelectedField::Year,
                SelectedField::Minute => SelectedField::Hour,
                SelectedField::Second => SelectedField::Minute,
                SelectedField::Weekday => SelectedField::Second,
                SelectedField::Day => SelectedField::Weekday,
                SelectedField::Month => SelectedField::Day,
                SelectedField::Year => SelectedField::Month,
            }
        }
    }

    fn display(&self, disp: &mut D, state: &mut SharedState) -> (r: Result<(), D::Error>) {
        let ghost start = disp.screen();
        let ghost ops = time_rendering(state.clock);
        assert(ops.subrange(0, 0) =~= Seq::<DisplayOp>::empty());
        draw_cursor(disp, 0, 0, Ghost(start), Ghost(ops), Ghost(0))?;
        draw_text(disp, "Time".as_bytes(), Ghost(start), Ghost(ops), Ghost(1))?;

        draw_cursor(disp, 2, 3, Ghost(start), Ghost(ops), Ghost(2))?;
        let hour = DecF::get_str(state.clock.hour, 0, 23);
        draw_text(disp, hour.as_slice(), Ghost(start), Ghost(ops), Ghost(3))?;
        draw_text(disp, ":".as_bytes(), Ghost(start), Ghost(ops), Ghost(4))?;
        let minute = DecF::get_str(state.clock.minute, 0, 59);
        draw_text(disp, minute.as_slice(), Ghost(start), Ghost(ops), Ghost(5))?;
        draw_text(disp, ":".as_bytes(), Ghost(start), Ghost(ops), Ghost(6))?;
        let second = DecF::get_str(state.clock.second, 0, 59);
        draw_text(disp, second.as_slice(), Ghost(start), Ghost(ops), Ghost(7))?;

        draw_cursor(disp, 3, 2, Ghost(start), Ghost(ops), Ghost(8))?;
        draw_text(
            disp,
            WeekdayF::get_str(state.clock.weekday).as_bytes(),
            Ghost(start),
            Ghost(ops),
            Ghost(9),
        )?;

        draw_cursor(disp, 3, 6, Ghost(start), Ghost(ops), Ghost(10))?;
        let day = DecF::get_str(state.clock.day, 1, 31);
        draw_text(disp, day.as_slice(), Ghost(start), Ghost(ops), Ghost(11))?;

        draw_cursor(disp, 3, 9, Ghost(start), Ghost(ops), Ghost(12))?;
        draw_text(
            disp,
            MonthF::get_str(state.clock.month).as_bytes(),
            Ghost(start),
            Ghost(ops),
            Ghost(13),
        )?;

        draw_cursor(disp, 3, 13, Ghost(start), Ghost(ops), Ghost(14))?;
        draw_text(disp, "20".as_bytes(), Ghost(start), Ghost(ops), Ghost(15))?;
        let year = DecF::get_str(state.clock.year, 0, 40);
        draw_text(disp, year.as_slice(), Ghost(start), Ghost(ops), Ghost(16))?;
        assert(ops.subrange(0, 17) =~= ops);
        Ok(())
    }

    fn get_cursor_state(&self, _state: &SharedState) -> (c: CursorState) {
        let row: u8 = 2 + match self.selected {
            SelectedField::Hour | SelectedField::Minute | SelectedField::Second => 0,
            _ => 1,
        };
        let col: u8 = 1 + match self.selected {
            SelectedField::Hour => 3,
            SelectedField::Minute => 6,
            SelectedField::Second => 9,
            SelectedField::Weekday => 3,
            SelectedField::Day => 6,
            SelectedField::Month => 10,
            SelectedField::Year => 15,
        };
        match self.in_edit {
            true => CursorState::Blinking(row, col),
            false => CursorState::Underline(row, col),
        }
    }
}

} // verus!
