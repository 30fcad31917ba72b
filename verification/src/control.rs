//! The main loop's decisions: which event goes to the dialog and which to
//! the panel, what the clock hardware and the logger are asked for in
//! return, what is drawn, and when the cursor has to be marked anew.

use crate::clock::AlarmState;
use crate::clock::ClockState;
use crate::clock::SharedState;
use crate::dialog::Dialog;
use crate::display::lemma_after_all_append;
use crate::display::BufferedDisplayError;
use crate::display::CursorMode;
use crate::display::Display;
use crate::display::DisplayOp;
use crate::display::I2CDisplayDriver;
use crate::display::cell_address;
use crate::display::CMD_CURSOR_BLINKING;
use crate::display::CMD_CURSOR_OFF;
use crate::display::CMD_CURSOR_UNDERLINE;
use crate::display::CMD_SET_CURSOR;
use crate::event::InterruptEvent;
use crate::panel::CursorState;
use crate::panel::Panel;
use vstd::prelude::*;

verus! {

/// Number of polls of the inputs in a second.
pub const POLL_FREQ: u32 = 10;

/// Seconds for which the button is held in a long press.
pub const LONG_PRESS_DURATION: u32 = 2;

/// Polls for which the button is held in a long press.
pub const LONG_PRESS_TICKS: u32 = LONG_PRESS_DURATION * POLL_FREQ;

/// What the caller has to do once an event was handled.
#[derive(Debug, Clone, Copy, PartialEq, Eq, Structural)]
pub enum Action {
    /// Nothing.
    Nothing,
    /// Queue the event again: it was waiting behind a dialog.
    Requeue(InterruptEvent),
    /// A tick was handled. Where `commit` is set, write the shared state to
    /// the clock hardware; where `refresh` is set, read the clock hardware
    /// into the shared state. Then sample the motion sensor.
    Tick { commit: bool, refresh: bool },
    /// Flush the log.
    Flush,
    /// Acknowledge the alarm to the clock hardware.
    AlarmReset,
}

/// The text of the dialog that an alarm raises.
pub open spec fn alarm_text() -> &'static str {
    "Alarm triggered"
}

/// The panel and the shared state after `n` steps: forward where `n` is
/// positive, backward where it is negative.
pub open spec fn stepped<D: Display, P: Panel<D>>(panel: P, state: SharedState, n: int) -> (
    P,
    SharedState,
)
    decreases
            if n >= 0 {
                n
            } else {
                -n
            },
{
    if n == 0 {
        (panel, state)
    } else if n > 0 {
        let before = stepped::<D, P>(panel, state, n - 1);
        before.0.after_next(before.1)
    } else {
        let before = stepped::<D, P>(panel, state, n + 1);
        before.0.after_previous(before.1)
    }
}

/// What the main loop keeps between events: the shared state, the dialog
/// that is shown, if any, and what it saw last of the panel and the cursor.
pub struct MainLoop {
    /// The working copy of clock and alarm.
    pub state: SharedState,
    /// The dialog that is shown over the panel.
    pub dialog: Option<Dialog>,
    /// Whether the panel was editing at the last tick.
    pub last_edit_state: bool,
    /// How the cursor was marked last.
    pub last_cursor_state: CursorState,
}

impl MainLoop {
    /// The main loop, the panel and the action after an event. A dialog
    /// takes every event: a press dismisses it and has its event queued
    /// again, anything else is dropped. Without a dialog the event goes to
    /// the panel.
    pub open spec fn handled<D: Display, P: Panel<D>>(self, panel: P, evt: InterruptEvent) -> (
        MainLoop,
        P,
        Action,
    ) {
        match self.dialog {
            Some(d) => match evt {
                InterruptEvent::LongPress | InterruptEvent::ShortPress => (
                    MainLoop { dialog: None, ..self },
                    panel,
                    match d.event {
                        Some(e) => Action::Requeue(e),
                        None => Action::Nothing,
                    },
                ),
                _ => (self, panel, Action::Nothing),
            },
            None => match evt {
                InterruptEvent::Tick => {
                    let commit = self.last_edit_state && !panel.editing();
                    (
                        MainLoop { last_edit_state: panel.editing(), ..self },
                        panel,
                        Action::Tick { commit, refresh: !panel.editing() && !commit },
                    )
                },
                InterruptEvent::Encoder(n) => {
                    let after = stepped::<D, P>(panel, self.state, n as int);
                    (MainLoop { state: after.1, ..self }, after.0, Action::Nothing)
                },
                InterruptEvent::LongPress => (self, panel.after_leave(), Action::Flush),
                InterruptEvent::ShortPress => (self, panel.after_enter(), Action::Nothing),
                InterruptEvent::Alarm => (
                    MainLoop { dialog: Some(Dialog { text: alarm_text(), event: None }), ..self },
                    panel,
                    Action::AlarmReset,
                ),
            },
        }
    }

    /// What is drawn: a blank display, and on it the dialog, or else the
    /// panel.
    pub open spec fn frame<D: Display, P: Panel<D>>(self, panel: P) -> Seq<DisplayOp> {
        seq![DisplayOp::Clear] + match self.dialog {
            Some(d) => d.rendering(),
            None => panel.rendering(self.state),
        }
    }

    /// How the cursor is marked: not at all under a dialog, else as the
    /// panel says.
    pub open spec fn cursor<D: Display, P: Panel<D>>(self, panel: P) -> CursorState {
        match self.dialog {
            Some(_) => CursorState::Off,
            None => panel.cursor_state(),
        }
    }

    /// Creates the main loop's state from what the clock hardware holds:
    /// no dialog is shown, nothing was edited and no cursor is marked.
    pub fn new(clock: ClockState, alarm: AlarmState) -> (m: Self)
        ensures
            m == (MainLoop {
                state: SharedState { clock, alarm },
                dialog: None,
                last_edit_state: false,
                last_cursor_state: CursorState::Off,
            }),
    {
        MainLoop {
            state: SharedState { clock, alarm },
            dialog: None,
            last_edit_state: false,
            last_cursor_state: CursorState::Off,
        }
    }

    /// Takes what the clock hardware holds as the shared state.
    pub fn refresh(&mut self, clock: ClockState, alarm: AlarmState)
        ensures
            *final(self) == (MainLoop { state: SharedState { clock, alarm }, ..*old(self) }),
    {
        self.state = SharedState { clock, alarm };
    }

    /// Handles one event and says what the caller has to do for it.
    pub fn handle_event<D: Display, P: Panel<D>>(&mut self, panel: &mut P, evt: InterruptEvent) -> (a:
        Action)
        ensures
            (*final(self), *final(panel), a) == old(self).handled::<D, P>(*old(panel), evt),
    {
        if let Some(d) = self.dialog {
            match evt {
                InterruptEvent::LongPress | InterruptEvent::ShortPress => {
                    self.dialog = None;
                    match d.event {
                        Some(e) => Action::Requeue(e),
                        None => Action::Nothing,
                    }
                },
                _ => Action::Nothing,
            }
        } else {
            match evt {
                InterruptEvent::Tick => {
                    let editing = panel.is_editing();
                    let commit = self.last_edit_state && !editing;
                    self.last_edit_state = editing;
                    Action::Tick { commit, refresh: !editing && !commit }
                },
                InterruptEvent::Encoder(change) => {
                    let mut c: i8 = change;
                    while c > 0
                        invariant
                            0 <= c <= change || (change < 0 && c == change),
                            self.dialog == old(self).dialog,
                            self.last_edit_state == old(self).last_edit_state,
                            self.last_cursor_state == old(self).last_cursor_state,
                            (*panel, self.state) == stepped::<D, P>(
                                *old(panel),
                                old(self).state,
                                change - c,
                            ),
                        decreases c,
                    {
                        panel.next(&mut self.state);
                        c -= 1;
                    }
                    while c < 0
                        invariant
                            change <= c <= 0 || (change >= 0 && c == 0),
                            self.dialog == old(self).dialog,
                            self.last_edit_state == old(self).last_edit_state,
                            self.last_cursor_state == old(self).last_cursor_state,
                            (*panel, self.state) == stepped::<D, P>(
                                *old(panel),
                                old(self).state,
                                change - c,
                            ),
                        decreases -c,
                    {
                        panel.previous(&mut self.state);
                        c += 1;
                    }
                    Action::Nothing
                },
                InterruptEvent::LongPress => {
                    panel.leave(&mut self.state);
                    Action::Flush
                },
                InterruptEvent::ShortPress => {
                    panel.enter(&mut self.state);
                    Action::Nothing
                },
                InterruptEvent::Alarm => {
                    self.dialog = Some(Dialog::new("Alarm triggered", None));
                    Action::AlarmReset
                },
            }
        }
    }

    /// Draws what is to be shown on a blank display and returns how the
    /// cursor is to be marked. A reliable display on which every cursor
    /// position of the drawing lies makes it succeed.
    pub fn render<D: Display, P: Panel<D>>(&mut self, panel: &P, disp: &mut D) -> (r: Result<
        CursorState,
        D::Error,
    >)
        requires
            old(disp).screen().wf(),
        ensures
            *final(self) == *old(self),
            final(disp).screen().wf(),
            final(disp).screen().rows() == old(disp).screen().rows(),
            final(disp).screen().columns() == old(disp).screen().columns(),
            final(disp).reliable() == old(disp).reliable(),
            old(disp).reliable() && old(disp).screen().all_in_bounds(
                old(self).frame::<D, P>(*panel),
            ) ==> r is Ok,
            r matches Ok(c) ==> c == old(self).cursor::<D, P>(*panel),
            r is Ok ==> final(disp).screen() == old(disp).screen().after_all(
                old(self).frame::<D, P>(*panel),
            ),
    {
        let ghost start = disp.screen();
        let ghost frame = self.frame::<D, P>(*panel);
        let ghost first = seq![DisplayOp::Clear];
        disp.clear()?;
        proof {
            assert(first.drop_last() =~= Seq::<DisplayOp>::empty());
            assert(start.after_all(Seq::<DisplayOp>::empty()) == start);
            assert(disp.screen() == start.after_all(first));
        }
        if let Some(d) = self.dialog {
            proof {
                assert forall|i: int| 0 <= i < d.rendering().len() implies start.in_bounds(
                    #[trigger] d.rendering()[i],
                ) == start.in_bounds(frame[i + 1]) by {}
                lemma_after_all_append(start, first, d.rendering());
            }
            d.display(disp)?;
            Ok(CursorState::Off)
        } else {
            proof {
                let drawing = panel.rendering(self.state);
                assert forall|i: int| 0 <= i < drawing.len() implies start.in_bounds(
                    #[trigger] drawing[i],
                ) == start.in_bounds(frame[i + 1]) by {}
                lemma_after_all_append(start, first, drawing);
            }
            panel.display(disp, &mut self.state)?;
            Ok(panel.get_cursor_state(&self.state))
        }
    }

    /// Records how the cursor is to be marked and returns whether the
    /// display has to be told: it has to be where the display changed and
    /// where the cursor is marked otherwise than before.
    pub fn cursor_update(&mut self, changed: bool, cursor_state: CursorState) -> (update: bool)
        ensures
            update == (changed || cursor_state != old(self).last_cursor_state),
            *final(self) == (MainLoop { last_cursor_state: cursor_state, ..*old(self) }),
    {
        let update = changed || cursor_state != self.last_cursor_state;
        self.last_cursor_state = cursor_state;
        update
    }
}

/// The commands that mark the cursor: the mode alone to switch it off, else
/// the move to its cell and then the mode.
pub open spec fn cursor_commands(cursor_state: CursorState, columns: int) -> Seq<u8> {
    match cursor_state {
        CursorState::Off => seq![CMD_CURSOR_OFF],
        CursorState::Underline(r, c) => seq![
            CMD_SET_CURSOR,
            cell_address(r as int, c as int, columns) as u8,
            CMD_CURSOR_UNDERLINE,
        ],
        CursorState::Blinking(r, c) => seq![
            CMD_SET_CURSOR,
            cell_address(r as int, c as int, columns) as u8,
            CMD_CURSOR_BLINKING,
        ],
    }
}

/// Whether the display can mark the cursor so: its cell lies on the display
/// and has an address of one byte.
pub open spec fn cursor_fits(cursor_state: CursorState, rows: int, columns: int) -> bool {
    match cursor_state {
        CursorState::Off => true,
        CursorState::Underline(r, c) | CursorState::Blinking(r, c) => r < rows && c < columns
            && cell_address(r as int, c as int, columns) <= 255,
    }
}

/// Queues the commands that mark the cursor on the display. A cursor that
/// the display cannot mark is refused, and nothing is queued.
pub fn show_cursor(driver: &mut I2CDisplayDriver, cursor_state: CursorState) -> (r: Result<
    (),
    BufferedDisplayError,
>)
    requires
        old(driver).wf(),
        old(driver).screen().wf(),
    ensures
        final(driver).wf(),
        final(driver).screen().wf(),
        final(driver).spec_address() == old(driver).spec_address(),
        final(driver).spec_rows() == old(driver).spec_rows(),
        final(driver).spec_columns() == old(driver).spec_columns(),
        r is Ok <==> cursor_fits(
            cursor_state,
            old(driver).spec_rows() as int,
            old(driver).spec_columns() as int,
        ),
        r is Ok ==> final(driver).commands() == old(driver).commands() + cursor_commands(
            cursor_state,
            old(driver).spec_columns() as int,
        ),
        r is Err ==> *final(driver) == *old(driver),
{
    match cursor_state {
        CursorState::Off => {
            driver.set_cursor_mode(CursorMode::Off);
            assert(driver.commands() =~= old(driver).commands() + seq![CMD_CURSOR_OFF]);
            Ok(())
        },
        CursorState::Underline(r, c) => {
            driver.set_cursor_position(r, c)?;
            driver.set_cursor_mode(CursorMode::Underline);
            assert(driver.commands() =~= old(driver).commands() + cursor_commands(
                cursor_state,
                old(driver).spec_columns() as int,
            ));
            Ok(())
        },
        CursorState::Blinking(r, c) => {
            driver.set_cursor_position(r, c)?;
            driver.set_cursor_mode(CursorMode::Blinking);
            assert(driver.commands() =~= old(driver).commands() + cursor_commands(
                cursor_state,
                old(driver).spec_columns() as int,
            ));
            Ok(())
        },
    }
}

} // verus!
