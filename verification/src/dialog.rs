//! The dialog: a line of text shown over the panel until a press dismisses
//! it.

use crate::display::Display;
use crate::display::DisplayOp;
use crate::event::InterruptEvent;
use crate::panel::draw_cursor;
use crate::panel::draw_text;
use vstd::prelude::*;
use vstd::string::StringSliceAdditionalSpecFns;

verus! {

/// Row in which a dialog shows its text.
pub const DIALOG_ROW: u8 = 1;

/// Width of the line in which a dialog centres its text.
pub const DIALOG_WIDTH: usize = 20;

/// A modal overlay: its text, and the event to queue again once it is
/// dismissed.
#[derive(Debug, Clone, Copy)]
pub struct Dialog {
    pub text: &'static str,
    pub event: Option<InterruptEvent>,
}

impl Dialog {
    /// Column at which a text of `len` characters starts: such that it
    /// stands centred, or 0 where it fills the line or is longer.
    pub open spec fn offset(len: int) -> u8 {
        if len < DIALOG_WIDTH {
            ((DIALOG_WIDTH - len) / 2) as u8
        } else {
            0
        }
    }

    /// The operations that draw the dialog: the text, centred in its row.
    pub open spec fn rendering(self) -> Seq<DisplayOp> {
        seq![
            DisplayOp::SetCursor(DIALOG_ROW, Self::offset(self.text.spec_bytes().len() as int)),
            DisplayOp::Write(self.text.spec_bytes()),
        ]
    }

    /// Creates a dialog.
    pub fn new(text: &'static str, event: Option<InterruptEvent>) -> (d: Dialog)
        ensures
            d.text == text,
            d.event == event,
    {
        Dialog { text, event }
    }

    /// Reacts to an event that reaches the dialog: a dialog has nothing to
    /// edit, so nothing changes.
    pub fn interaction(&mut self)
        ensures
            *final(self) == *old(self),
    {
    }

    /// Draws the dialog. A reliable display that has the dialog's row and
    /// the column at which the text starts makes it succeed.
    pub fn display<D: Display>(&self, disp: &mut D) -> (r: Result<(), D::Error>)
        requires
            old(disp).screen().wf(),
        ensures
            final(disp).screen().wf(),
            final(disp).screen().rows() == old(disp).screen().rows(),
            final(disp).screen().columns() == old(disp).screen().columns(),
            final(disp).reliable() == old(disp).reliable(),
            old(disp).reliable() && old(disp).screen().all_in_bounds(self.rendering()) ==> r is Ok,
            r is Ok ==> final(disp).screen() == old(disp).screen().after_all(self.rendering()),
    {
        let text = self.text.as_bytes();
        let len = text.len();
        let offset: u8 = if len < DIALOG_WIDTH {
            ((DIALOG_WIDTH - len) / 2) as u8
        } else {
            0
        };
        let ghost start = disp.screen();
        let ghost ops = self.rendering();
        assert(ops.subrange(0, 0) =~= Seq::<DisplayOp>::empty());
        draw_cursor(disp, DIALOG_ROW, offset, Ghost(start), Ghost(ops), Ghost(0))?;
        draw_text(disp, text, Ghost(start), Ghost(ops), Ghost(1))?;
        assert(ops.subrange(0, 2) =~= ops);
        Ok(())
    }
}

} // verus!
