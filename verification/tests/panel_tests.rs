use bedside_clock::clock::AlarmState;
use bedside_clock::clock::ClockState;
use bedside_clock::clock::SharedState;
use bedside_clock::display::BufferedDisplay;
use bedside_clock::display::Display;
use bedside_clock::panel::time::SelectedField;
use bedside_clock::panel::time::TimePanel;
use bedside_clock::panel::CursorState;
use bedside_clock::panel::DecF;
use bedside_clock::panel::MonthF;
use bedside_clock::panel::OnOffF;
use bedside_clock::panel::Panel;
use bedside_clock::panel::WeekdayF;

type Lcd = BufferedDisplay<4, 20>;

fn state() -> SharedState {
    SharedState {
        clock: ClockState { hour: 12, minute: 34, second: 56, weekday: 3, day: 7, month: 11, year: 21 },
        alarm: AlarmState { hour: 6, minute: 30, enabled: true },
    }
}

fn next(p: &mut TimePanel, s: &mut SharedState) {
    <TimePanel as Panel<Lcd>>::next(p, s)
}

fn previous(p: &mut TimePanel, s: &mut SharedState) {
    <TimePanel as Panel<Lcd>>::previous(p, s)
}

fn enter(p: &mut TimePanel, s: &mut SharedState) {
    <TimePanel as Panel<Lcd>>::enter(p, s)
}

fn leave(p: &mut TimePanel, s: &mut SharedState) {
    <TimePanel as Panel<Lcd>>::leave(p, s)
}

fn cursor(p: &TimePanel, s: &SharedState) -> CursorState {
    <TimePanel as Panel<Lcd>>::get_cursor_state(p, s)
}

fn editing_at(field: SelectedField) -> TimePanel {
    TimePanel { in_edit: true, selected: field }
}

fn text(d: &Lcd, row: usize, from: usize, to: usize) -> String {
    (from..to).map(|c| d.pending_at(row, c).unwrap() as char).collect()
}

#[test]
fn new_panel_selects_the_hour() {
    let p = TimePanel::new();
    assert_eq!(p, TimePanel { in_edit: false, selected: SelectedField::Hour });
    assert!(!<TimePanel as Panel<Lcd>>::is_editing(&p));
}

#[test]
fn next_steps_through_the_fields_in_a_circle() {
    let mut p = TimePanel::new();
    let mut s = state();
    let order = [
        SelectedField::Minute,
        SelectedField::Second,
        SelectedField::Weekday,
        SelectedField::Day,
        SelectedField::Month,
        SelectedField::Year,
        SelectedField::Hour,
    ];
    for f in order {
        next(&mut p, &mut s);
        assert_eq!(p.selected, f);
    }
    assert_eq!(s, state());
}

#[test]
fn previous_steps_through_the_fields_backwards() {
    let mut p = TimePanel::new();
    let mut s = state();
    let order = [
        SelectedField::Year,
        SelectedField::Month,
        SelectedField::Day,
        SelectedField::Weekday,
        SelectedField::Second,
        SelectedField::Minute,
        SelectedField::Hour,
    ];
    for f in order {
        previous(&mut p, &mut s);
        assert_eq!(p.selected, f);
    }
    assert_eq!(s, state());
}

#[test]
fn enter_toggles_and_leave_ends_editing() {
    let mut p = TimePanel::new();
    let mut s = state();
    enter(&mut p, &mut s);
    assert!(p.in_edit);
    enter(&mut p, &mut s);
    assert!(!p.in_edit);
    leave(&mut p, &mut s);
    assert!(!p.in_edit);
    enter(&mut p, &mut s);
    leave(&mut p, &mut s);
    assert!(!p.in_edit);
    assert_eq!(p.selected, SelectedField::Hour);
    assert_eq!(s, state());
}

#[test]
fn hour_wraps_at_its_bounds() {
    let mut p = editing_at(SelectedField::Hour);
    let mut s = state();
    s.clock.hour = 23;
    next(&mut p, &mut s);
    assert_eq!(s.clock.hour, 0);
    previous(&mut p, &mut s);
    assert_eq!(s.clock.hour, 23);
    s.clock.hour = 22;
    next(&mut p, &mut s);
    assert_eq!(s.clock.hour, 23);
    assert_eq!(p.selected, SelectedField::Hour);
}

#[test]
fn minute_and_second_wrap_at_their_bounds() {
    let mut s = state();
    let mut p = editing_at(SelectedField::Minute);
    s.clock.minute = 59;
    next(&mut p, &mut s);
    assert_eq!(s.clock.minute, 0);
    previous(&mut p, &mut s);
    assert_eq!(s.clock.minute, 59);
    let mut p = editing_at(SelectedField::Second);
    s.clock.second = 59;
    next(&mut p, &mut s);
    assert_eq!(s.clock.second, 0);
    previous(&mut p, &mut s);
    assert_eq!(s.clock.second, 59);
    s.clock.second = 58;
    next(&mut p, &mut s);
    assert_eq!(s.clock.second, 59);
}

#[test]
fn month_and_weekday_are_cyclic() {
    let mut s = state();
    let mut p = editing_at(SelectedField::Month);
    s.clock.month = 12;
    next(&mut p, &mut s);
    assert_eq!(s.clock.month, 1);
    previous(&mut p, &mut s);
    assert_eq!(s.clock.month, 12);
    let mut p = editing_at(SelectedField::Weekday);
    s.clock.weekday = 7;
    next(&mut p, &mut s);
    assert_eq!(s.clock.weekday, 1);
    previous(&mut p, &mut s);
    assert_eq!(s.clock.weekday, 7);
}

#[test]
fn day_and_year_wrap_at_their_bounds() {
    let mut s = state();
    let mut p = editing_at(SelectedField::Day);
    s.clock.day = 31;
    next(&mut p, &mut s);
    assert_eq!(s.clock.day, 1);
    previous(&mut p, &mut s);
    assert_eq!(s.clock.day, 31);
    let mut p = editing_at(SelectedField::Year);
    s.clock.year = 40;
    next(&mut p, &mut s);
    assert_eq!(s.clock.year, 0);
    previous(&mut p, &mut s);
    assert_eq!(s.clock.year, 40);
}

#[test]
fn editing_changes_one_field_only() {
    let mut p = editing_at(SelectedField::Day);
    let mut s = state();
    next(&mut p, &mut s);
    let mut want = state();
    want.clock.day = 8;
    assert_eq!(s, want);
}

#[test]
fn decimal_field_steps() {
    let mut v = 5u8;
    DecF::next(&mut v, 0, 23);
    assert_eq!(v, 6);
    DecF::previous(&mut v, 0, 23);
    DecF::previous(&mut v, 0, 23);
    assert_eq!(v, 4);
    let mut v = 200u8;
    DecF::next(&mut v, 0, 23);
    assert_eq!(v, 0);
    let mut v = 0u8;
    DecF::previous(&mut v, 1, 31);
    assert_eq!(v, 31);
    let mut v = 255u8;
    DecF::next(&mut v, 0, 255);
    assert_eq!(v, 0);
    let mut v = 0u8;
    DecF::previous(&mut v, 0, 255);
    assert_eq!(v, 255);
}

#[test]
fn decimal_field_shows_digits() {
    assert_eq!(DecF::get_str(0, 0, 23), b"00".to_vec());
    assert_eq!(DecF::get_str(7, 0, 23), b"07".to_vec());
    assert_eq!(DecF::get_str(23, 0, 23), b"23".to_vec());
    assert_eq!(DecF::get_str(59, 0, 59), b"59".to_vec());
    assert_eq!(DecF::get_str(24, 0, 23), b"??".to_vec());
    assert_eq!(DecF::get_str(0, 1, 31), b"??".to_vec());
    assert_eq!(DecF::get_str(5, 0, 60), b"??".to_vec());
    assert_eq!(DecF::get_str(5, 0, 9), b"5".to_vec());
    assert_eq!(DecF::get_str(9, 0, 9), b"9".to_vec());
    assert_eq!(DecF::get_str(10, 0, 9), b"?".to_vec());
    assert_eq!(DecF::get_str(1, 2, 9), b"?".to_vec());
}

#[test]
fn weekday_field() {
    let names = ["MON", "TUE", "WED", "THU", "FRI", "SAT", "SUN"];
    for (i, n) in names.iter().enumerate() {
        assert_eq!(WeekdayF::get_str(i as u8 + 1), *n);
    }
    assert_eq!(WeekdayF::get_str(0), "XXX");
    assert_eq!(WeekdayF::get_str(8), "XXX");
    let mut v = 6u8;
    WeekdayF::next(&mut v);
    assert_eq!(v, 7);
    WeekdayF::next(&mut v);
    assert_eq!(v, 1);
    WeekdayF::previous(&mut v);
    assert_eq!(v, 7);
    let mut v = 0u8;
    WeekdayF::previous(&mut v);
    assert_eq!(v, 7);
}

#[test]
fn month_field() {
    let names =
        ["JAN", "FEB", "MAR", "APR", "MAY", "JUN", "JUL", "AUG", "SEP", "OCT", "NOV", "DEC"];
    for (i, n) in names.iter().enumerate() {
        assert_eq!(MonthF::get_str(i as u8 + 1), *n);
    }
    assert_eq!(MonthF::get_str(0), "XXX");
    assert_eq!(MonthF::get_str(13), "XXX");
    let mut v = 11u8;
    MonthF::next(&mut v);
    assert_eq!(v, 12);
    MonthF::next(&mut v);
    assert_eq!(v, 1);
    MonthF::previous(&mut v);
    assert_eq!(v, 12);
    MonthF::previous(&mut v);
    assert_eq!(v, 11);
}

#[test]
fn switch_field() {
    let mut v = false;
    OnOffF::next(&mut v);
    assert!(v);
    OnOffF::previous(&mut v);
    assert!(!v);
    assert_eq!(OnOffF::get_str(true), "ON");
    assert_eq!(OnOffF::get_str(false), "OFF");
}

#[test]
fn cursor_marks_the_selected_field() {
    let s = state();
    let cells = [
        (SelectedField::Hour, 2, 4),
        (SelectedField::Minute, 2, 7),
        (SelectedField::Second, 2, 10),
        (SelectedField::Weekday, 3, 4),
        (SelectedField::Day, 3, 7),
        (SelectedField::Month, 3, 11),
        (SelectedField::Year, 3, 16),
    ];
    for (f, r, c) in cells {
        let p = TimePanel { in_edit: false, selected: f };
        assert_eq!(cursor(&p, &s), CursorState::Underline(r, c));
        let p = TimePanel { in_edit: true, selected: f };
        assert_eq!(cursor(&p, &s), CursorState::Blinking(r, c));
    }
}

#[test]
fn panel_draws_the_clock() {
    let mut d: Lcd = BufferedDisplay::new();
    let p = TimePanel::new();
    let mut s = state();
    d.clear().unwrap();
    p.display(&mut d, &mut s).unwrap();
    assert_eq!(text(&d, 0, 0, 20), "Time                ");
    assert_eq!(text(&d, 1, 0, 20), "                    ");
    assert_eq!(text(&d, 2, 0, 20), "   12:34:56         ");
    assert_eq!(text(&d, 3, 0, 20), "  WED 07 NOV 2021   ");
    assert_eq!(s, state());
}

#[test]
fn panel_draws_question_marks_for_values_out_of_range() {
    let mut d: Lcd = BufferedDisplay::new();
    let p = TimePanel::new();
    let mut s = state();
    s.clock.hour = 24;
    s.clock.weekday = 0;
    s.clock.day = 0;
    s.clock.month = 13;
    s.clock.year = 41;
    p.display(&mut d, &mut s).unwrap();
    assert_eq!(text(&d, 2, 0, 20), "   ??:34:56         ");
    assert_eq!(text(&d, 3, 0, 20), "  XXX ?? XXX 20??   ");
}

#[test]
fn panel_fails_on_a_display_that_is_too_small() {
    let mut d: BufferedDisplay<2, 20> = BufferedDisplay::new();
    let p = TimePanel::new();
    let mut s = state();
    assert!(<TimePanel as Panel<BufferedDisplay<2, 20>>>::display(&p, &mut d, &mut s).is_err());
}
