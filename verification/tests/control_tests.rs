use bedside_clock::clock::AlarmState;
use bedside_clock::clock::ClockState;
use bedside_clock::clock::SharedState;
use bedside_clock::control::show_cursor;
use bedside_clock::control::Action;
use bedside_clock::control::MainLoop;
use bedside_clock::dialog::Dialog;
use bedside_clock::display::BufferedDisplay;
use bedside_clock::display::BufferedDisplayError;
use bedside_clock::display::I2CDisplayDriver;
use bedside_clock::event::InterruptEvent;
use bedside_clock::panel::time::SelectedField;
use bedside_clock::panel::time::TimePanel;
use bedside_clock::panel::CursorState;

type Lcd = BufferedDisplay<4, 20>;

fn reading() -> ClockState {
    ClockState { hour: 23, minute: 59, second: 58, weekday: 7, day: 31, month: 12, year: 21 }
}

fn alarm() -> AlarmState {
    AlarmState { hour: 6, minute: 30, enabled: true }
}

fn handle(m: &mut MainLoop, p: &mut TimePanel, e: InterruptEvent) -> Action {
    m.handle_event::<Lcd, TimePanel>(p, e)
}

fn row_text(d: &Lcd, row: usize) -> String {
    (0..20).map(|c| d.pending_at(row, c).unwrap() as char).collect()
}

#[test]
fn new_main_loop_holds_the_clock() {
    let m = MainLoop::new(reading(), alarm());
    assert_eq!(m.state, SharedState { clock: reading(), alarm: alarm() });
    assert!(m.dialog.is_none());
    assert!(!m.last_edit_state);
    assert_eq!(m.last_cursor_state, CursorState::Off);
}

#[test]
fn tick_refreshes_while_nothing_is_edited() {
    let mut m = MainLoop::new(reading(), alarm());
    let mut p = TimePanel::new();
    assert_eq!(
        handle(&mut m, &mut p, InterruptEvent::Tick),
        Action::Tick { commit: false, refresh: true }
    );
    assert!(!m.last_edit_state);
}

#[test]
fn tick_commits_once_after_editing() {
    let mut m = MainLoop::new(reading(), alarm());
    let mut p = TimePanel::new();
    assert_eq!(handle(&mut m, &mut p, InterruptEvent::ShortPress), Action::Nothing);
    assert!(p.in_edit);
    assert_eq!(
        handle(&mut m, &mut p, InterruptEvent::Tick),
        Action::Tick { commit: false, refresh: false }
    );
    assert!(m.last_edit_state);
    assert_eq!(handle(&mut m, &mut p, InterruptEvent::Encoder(1)), Action::Nothing);
    assert_eq!(m.state.clock.hour, 0);
    assert_eq!(handle(&mut m, &mut p, InterruptEvent::ShortPress), Action::Nothing);
    assert!(!p.in_edit);
    assert_eq!(
        handle(&mut m, &mut p, InterruptEvent::Tick),
        Action::Tick { commit: true, refresh: false }
    );
    assert_eq!(
        handle(&mut m, &mut p, InterruptEvent::Tick),
        Action::Tick { commit: false, refresh: true }
    );
}

#[test]
fn encoder_steps_the_panel_once_per_detent() {
    let mut m = MainLoop::new(reading(), alarm());
    let mut p = TimePanel::new();
    handle(&mut m, &mut p, InterruptEvent::Encoder(3));
    assert_eq!(p.selected, SelectedField::Weekday);
    handle(&mut m, &mut p, InterruptEvent::Encoder(-4));
    assert_eq!(p.selected, SelectedField::Year);
    handle(&mut m, &mut p, InterruptEvent::Encoder(0));
    assert_eq!(p.selected, SelectedField::Year);
    assert_eq!(m.state.clock, reading());
    handle(&mut m, &mut p, InterruptEvent::ShortPress);
    handle(&mut m, &mut p, InterruptEvent::Encoder(-23));
    assert_eq!(m.state.clock.year, 39);
    handle(&mut m, &mut p, InterruptEvent::Encoder(127));
    assert_eq!(m.state.clock.year, 2);
    handle(&mut m, &mut p, InterruptEvent::Encoder(-128));
    assert_eq!(m.state.clock.year, 38);
}

#[test]
fn long_press_leaves_and_flushes() {
    let mut m = MainLoop::new(reading(), alarm());
    let mut p = TimePanel { in_edit: true, selected: SelectedField::Day };
    assert_eq!(handle(&mut m, &mut p, InterruptEvent::LongPress), Action::Flush);
    assert_eq!(p, TimePanel { in_edit: false, selected: SelectedField::Day });
    assert_eq!(handle(&mut m, &mut p, InterruptEvent::LongPress), Action::Flush);
    assert!(!p.in_edit);
}

#[test]
fn alarm_raises_a_dialog() {
    let mut m = MainLoop::new(reading(), alarm());
    let mut p = TimePanel::new();
    assert_eq!(handle(&mut m, &mut p, InterruptEvent::Alarm), Action::AlarmReset);
    let d = m.dialog.unwrap();
    assert_eq!(d.text, "Alarm triggered");
    assert_eq!(d.event, None);
}

#[test]
fn dialog_takes_every_event() {
    let mut m = MainLoop::new(reading(), alarm());
    let mut p = TimePanel::new();
    handle(&mut m, &mut p, InterruptEvent::Alarm);
    assert_eq!(handle(&mut m, &mut p, InterruptEvent::Tick), Action::Nothing);
    assert_eq!(handle(&mut m, &mut p, InterruptEvent::Encoder(5)), Action::Nothing);
    assert_eq!(handle(&mut m, &mut p, InterruptEvent::Alarm), Action::Nothing);
    assert_eq!(p, TimePanel::new());
    assert_eq!(m.state.clock, reading());
    assert!(m.dialog.is_some());
    assert_eq!(handle(&mut m, &mut p, InterruptEvent::ShortPress), Action::Nothing);
    assert!(m.dialog.is_none());
    assert_eq!(p, TimePanel::new());
    assert_eq!(handle(&mut m, &mut p, InterruptEvent::ShortPress), Action::Nothing);
    assert!(p.in_edit);
}

#[test]
fn dismissed_dialog_has_its_event_queued_again() {
    let mut m = MainLoop::new(reading(), alarm());
    let mut p = TimePanel::new();
    m.dialog = Some(Dialog::new("Set the clock", Some(InterruptEvent::Encoder(2))));
    assert_eq!(
        handle(&mut m, &mut p, InterruptEvent::LongPress),
        Action::Requeue(InterruptEvent::Encoder(2))
    );
    assert!(m.dialog.is_none());
    assert_eq!(p, TimePanel::new());
}

#[test]
fn refresh_replaces_the_shared_state() {
    let mut m = MainLoop::new(reading(), alarm());
    m.last_edit_state = true;
    let c = ClockState::default();
    let a = AlarmState { hour: 7, minute: 0, enabled: false };
    m.refresh(c, a);
    assert_eq!(m.state, SharedState { clock: c, alarm: a });
    assert!(m.last_edit_state);
}

#[test]
fn render_draws_the_panel() {
    let mut m = MainLoop::new(reading(), alarm());
    let p = TimePanel { in_edit: true, selected: SelectedField::Minute };
    let mut d: Lcd = BufferedDisplay::new();
    assert_eq!(m.render(&p, &mut d), Ok(CursorState::Blinking(2, 7)));
    assert_eq!(row_text(&d, 0), "Time                ");
    assert_eq!(row_text(&d, 2), "   23:59:58         ");
    assert_eq!(row_text(&d, 3), "  SUN 31 DEC 2021   ");
}

#[test]
fn render_draws_the_dialog_over_a_blank_display() {
    let mut m = MainLoop::new(reading(), alarm());
    let mut p = TimePanel::new();
    let mut d: Lcd = BufferedDisplay::new();
    m.render(&p, &mut d).unwrap();
    handle(&mut m, &mut p, InterruptEvent::Alarm);
    assert_eq!(m.render(&p, &mut d), Ok(CursorState::Off));
    assert_eq!(row_text(&d, 0), "                    ");
    assert_eq!(row_text(&d, 1), "  Alarm triggered   ");
    assert_eq!(row_text(&d, 2), "                    ");
    assert_eq!(row_text(&d, 3), "                    ");
}

#[test]
fn cursor_is_marked_anew_when_something_changed() {
    let mut m = MainLoop::new(reading(), alarm());
    assert!(!m.cursor_update(false, CursorState::Off));
    assert!(m.cursor_update(true, CursorState::Off));
    assert!(m.cursor_update(false, CursorState::Underline(2, 4)));
    assert_eq!(m.last_cursor_state, CursorState::Underline(2, 4));
    assert!(!m.cursor_update(false, CursorState::Underline(2, 4)));
    assert!(m.cursor_update(false, CursorState::Blinking(2, 4)));
    assert!(m.cursor_update(false, CursorState::Blinking(2, 5)));
    assert!(m.cursor_update(true, CursorState::Blinking(2, 5)));
}

#[test]
fn show_cursor_queues_move_and_mode() {
    let mut d = I2CDisplayDriver::new(0x63, 4, 20);
    assert_eq!(show_cursor(&mut d, CursorState::Off), Ok(()));
    assert_eq!(d.take_commands(), vec![0x04]);
    assert_eq!(show_cursor(&mut d, CursorState::Underline(2, 4)), Ok(()));
    assert_eq!(d.take_commands(), vec![0x02, 45, 0x05]);
    assert_eq!(show_cursor(&mut d, CursorState::Blinking(3, 16)), Ok(()));
    assert_eq!(d.take_commands(), vec![0x02, 77, 0x06]);
    assert_eq!(
        show_cursor(&mut d, CursorState::Blinking(4, 0)),
        Err(BufferedDisplayError::OutOfBounds)
    );
    assert_eq!(d.take_commands(), Vec::<u8>::new());
}
