//! Character displays: the interface that every display offers, its model
//! as a grid of characters with a cursor, and the buffered display that sends
//! a slow display only the cells that changed.

use vstd::prelude::*;

verus! {

/// The blank character of a cleared display.
pub const BLANK: u8 = 0x20;

/// A character display as contracts speak of it: a grid of characters and
/// the cell at which the next character is written.
pub struct Screen {
    /// The characters, one sequence per row.
    pub cells: Seq<Seq<u8>>,
    /// Row of the cursor.
    pub row: int,
    /// Column of the cursor.
    pub column: int,
}

/// One operation on a display.
pub enum DisplayOp {
    /// Blank every cell and move the cursor to the first cell.
    Clear,
    /// Move the cursor to a row and a column.
    SetCursor(u8, u8),
    /// Write characters from the cursor on.
    Write(Seq<u8>),
}

impl Screen {
    /// Number of rows.
    pub open spec fn rows(self) -> int {
        self.cells.len() as int
    }

    /// Number of columns.
    pub open spec fn columns(self) -> int {
        self.cells[0].len() as int
    }

    /// Well-formedness: the grid is rectangular and not empty, and the cursor
    /// lies on it.
    pub open spec fn wf(self) -> bool {
        &&& self.cells.len() > 0
        &&& self.cells[0].len() > 0
        &&& forall|r: int|
            0 <= r < self.cells.len() ==> (#[trigger] self.cells[r]).len() == self.cells[0].len()
        &&& 0 <= self.row < self.rows()
        &&& 0 <= self.column < self.columns()
    }

    /// The screen with every cell blank and the cursor on the first cell.
    pub open spec fn cleared(self) -> Screen {
        Screen {
            cells: Seq::new(self.cells.len(), |r: int| Seq::new(self.cells[0].len(), |c: int| BLANK)),
            row: 0,
            column: 0,
        }
    }

    /// The screen with the cursor at the given cell.
    pub open spec fn moved(self, row: int, column: int) -> Screen {
        Screen { row, column, ..self }
    }

    /// The screen after one character is written: the character stands at
    /// the cursor, and the cursor moves on by one cell, from the end of a row
    /// to the start of the next, and from the last row to the first.
    pub open spec fn put(self, b: u8) -> Screen {
        let cells = self.cells.update(self.row, self.cells[self.row].update(self.column, b));
        if self.column + 1 < self.columns() {
            Screen { cells, row: self.row, column: self.column + 1 }
        } else if self.row + 1 < self.rows() {
            Screen { cells, row: self.row + 1, column: 0 }
        } else {
            Screen { cells, row: 0, column: 0 }
        }
    }

    /// The screen after the characters are written one after the other.
    pub open spec fn put_all(self, bytes: Seq<u8>) -> Screen
        decreases bytes.len(),
    {
        if bytes.len() == 0 {
            self
        } else {
            self.put_all(bytes.drop_last()).put(bytes.last())
        }
    }

    /// Whether the operation names a cell of this screen, where it names one.
    pub open spec fn in_bounds(self, op: DisplayOp) -> bool {
        match op {
            DisplayOp::SetCursor(row, column) => row < self.rows() && column < self.columns(),
            _ => true,
        }
    }

    /// The screen after an operation.
    pub open spec fn after(self, op: DisplayOp) -> Screen {
        match op {
            DisplayOp::Clear => self.cleared(),
            DisplayOp::SetCursor(row, column) => self.moved(row as int, column as int),
            DisplayOp::Write(bytes) => self.put_all(bytes),
        }
    }

    /// The screen after the operations, performed in order.
    pub open spec fn after_all(self, ops: Seq<DisplayOp>) -> Screen
        decreases ops.len(),
    {
        if ops.len() == 0 {
            self
        } else {
            self.after_all(ops.drop_last()).after(ops.last())
        }
    }

    /// Whether each of the operations, performed in order, names a cell of
    /// the screen.
    pub open spec fn all_in_bounds(self, ops: Seq<DisplayOp>) -> bool {
        forall|i: int| 0 <= i < ops.len() ==> self.in_bounds(#[trigger] ops[i])
    }
}

/// Writing one character keeps a screen well-formed and its size.
pub proof fn lemma_put_wf(s: Screen, b: u8)
    requires
        s.wf(),
    ensures
        s.put(b).wf(),
        s.put(b).rows() == s.rows(),
        s.put(b).columns() == s.columns(),
{
    let t = s.put(b);
    assert forall|r: int| 0 <= r < t.cells.len() implies (#[trigger] t.cells[r]).len()
        == t.cells[0].len() by {
        assert(s.cells[r].len() == s.cells[0].len());
    }
}

/// Writing characters keeps a screen well-formed and its size.
pub proof fn lemma_put_all_wf(s: Screen, bytes: Seq<u8>)
    requires
        s.wf(),
    ensures
        s.put_all(bytes).wf(),
        s.put_all(bytes).rows() == s.rows(),
        s.put_all(bytes).columns() == s.columns(),
    decreases bytes.len(),
{
    if bytes.len() > 0 {
        lemma_put_all_wf(s, bytes.drop_last());
        lemma_put_wf(s.put_all(bytes.drop_last()), bytes.last());
    }
}

/// Performing `a` and then `b` is performing `a + b`.
pub proof fn lemma_after_all_append(s: Screen, a: Seq<DisplayOp>, b: Seq<DisplayOp>)
    ensures
        s.after_all(a + b) == s.after_all(a).after_all(b),
    decreases b.len(),
{
    if b.len() == 0 {
        assert(a + b =~= a);
    } else {
        lemma_after_all_append(s, a, b.drop_last());
        assert((a + b).drop_last() =~= a + b.drop_last());
        assert((a + b).last() == b.last());
    }
}

/// Whether the cursor of the display behind has to be moved before the cell
/// at `r`, `c` is sent: it has to be for the first cell, and after a cell
/// that was not sent.
pub open spec fn cursor_lost(
    pending: Seq<Seq<u8>>,
    sent: Seq<Seq<u8>>,
    r: int,
    c: int,
    columns: int,
) -> bool {
    if c > 0 {
        pending[r][c - 1] == sent[r][c - 1]
    } else if r > 0 {
        pending[r - 1][columns - 1] == sent[r - 1][columns - 1]
    } else {
        true
    }
}

/// The operations that bring the cell at `r`, `c` up to date: none where it
/// shows what is pending; else the character, after a cursor move where the
/// cursor does not stand there already.
pub open spec fn cell_ops(
    pending: Seq<Seq<u8>>,
    sent: Seq<Seq<u8>>,
    r: int,
    c: int,
    columns: int,
) -> Seq<DisplayOp> {
    if pending[r][c] == sent[r][c] {
        Seq::empty()
    } else if cursor_lost(pending, sent, r, c, columns) {
        seq![DisplayOp::SetCursor(r as u8, c as u8), DisplayOp::Write(seq![pending[r][c]])]
    } else {
        seq![DisplayOp::Write(seq![pending[r][c]])]
    }
}

/// The operations for the first `c` cells of row `r`, left to right.
pub open spec fn row_ops(
    pending: Seq<Seq<u8>>,
    sent: Seq<Seq<u8>>,
    r: int,
    c: int,
    columns: int,
) -> Seq<DisplayOp>
    decreases c,
{
    if c <= 0 {
        Seq::empty()
    } else {
        row_ops(pending, sent, r, c - 1, columns) + cell_ops(pending, sent, r, c - 1, columns)
    }
}

/// The operations for the first `r` rows, top to bottom.
pub open spec fn grid_ops(pending: Seq<Seq<u8>>, sent: Seq<Seq<u8>>, r: int, columns: int) -> Seq<
    DisplayOp,
>
    decreases r,
{
    if r <= 0 {
        Seq::empty()
    } else {
        grid_ops(pending, sent, r - 1, columns) + row_ops(pending, sent, r - 1, columns, columns)
    }
}

/// The operations that reconcile a display showing `sent` with `pending`:
/// cell by cell in row-major order, one write for each cell that differs,
/// and one cursor move in front of each run of such cells.
pub open spec fn diff_ops(pending: Seq<Seq<u8>>, sent: Seq<Seq<u8>>) -> Seq<DisplayOp> {
    grid_ops(pending, sent, pending.len() as int, pending[0].len() as int)
}

/// A row that shows what is pending needs no operation.
pub proof fn lemma_row_ops_of_equal(pending: Seq<Seq<u8>>, r: int, c: int, columns: int)
    ensures
        row_ops(pending, pending, r, c, columns) == Seq::<DisplayOp>::empty(),
    decreases c,
{
    if c > 0 {
        lemma_row_ops_of_equal(pending, r, c - 1, columns);
    }
}

/// Rows that show what is pending need no operation.
pub proof fn lemma_grid_ops_of_equal(pending: Seq<Seq<u8>>, r: int, columns: int)
    ensures
        grid_ops(pending, pending, r, columns) == Seq::<DisplayOp>::empty(),
    decreases r,
{
    if r > 0 {
        lemma_grid_ops_of_equal(pending, r - 1, columns);
        lemma_row_ops_of_equal(pending, r - 1, columns, columns);
    }
}

/// Minimal difference: a display that shows what is pending is sent nothing.
/// So after `apply` has succeeded, a second `apply` of the same pending
/// characters performs no operation, and reports no change.
pub proof fn lemma_no_diff(pending: Seq<Seq<u8>>)
    ensures
        diff_ops(pending, pending) == Seq::<DisplayOp>::empty(),
{
    lemma_grid_ops_of_equal(pending, pending.len() as int, pending[0].len() as int);
}

/// Whether `cells` is a grid of `rows` by `columns` characters.
pub open spec fn is_grid(cells: Seq<Seq<u8>>, rows: int, columns: int) -> bool {
    &&& cells.len() == rows
    &&& forall|r: int| 0 <= r < rows ==> (#[trigger] cells[r]).len() == columns
}

/// The cell that follows the cell at `r`, `c` in row-major order, round
/// from the last cell to the first.
pub open spec fn cell_after(r: int, c: int, rows: int, columns: int) -> (int, int) {
    if c + 1 < columns {
        (r, c + 1)
    } else if r + 1 < rows {
        (r + 1, 0)
    } else {
        (0, 0)
    }
}

/// Whether a display that shows `shown` can be reconciled by difference:
/// it has the size of `pending`, and each cell whose pending character is
/// the one sent last shows that character.
pub open spec fn in_step(shown: Seq<Seq<u8>>, pending: Seq<Seq<u8>>, sent: Seq<Seq<u8>>) -> bool {
    &&& is_grid(shown, pending.len() as int, pending[0].len() as int)
    &&& forall|i: int, j: int|
        0 <= i < pending.len() && 0 <= j < pending[0].len() && pending[i][j] == sent[i][j]
            ==> #[trigger] shown[i][j] == pending[i][j]
}

/// A screen that has been brought up to date as far as the cell at `r`,
/// `c`: the cells before it show what is pending, the cells from it on what
/// `shown` shows, and the cursor stands at it where the cell before it was
/// written.
pub open spec fn reconciled_to(
    t: Screen,
    shown: Seq<Seq<u8>>,
    pending: Seq<Seq<u8>>,
    sent: Seq<Seq<u8>>,
    r: int,
    c: int,
) -> bool {
    let rows = pending.len() as int;
    let columns = pending[0].len() as int;
    &&& t.wf()
    &&& is_grid(t.cells, rows, columns)
    &&& forall|i: int, j: int|
        0 <= i < rows && 0 <= j < columns ==> #[trigger] t.cells[i][j] == if i < r || (i == r && j
            < c) {
            pending[i][j]
        } else {
            shown[i][j]
        }
    &&& r < rows && c < columns && !cursor_lost(pending, sent, r, c, columns) ==> t.row == r
        && t.column == c
}

/// Whether `now` records as sent the cells of `pending` that lie before the
/// cell at `r`, `c` in row-major order, and for the others what `before`
/// recorded.
pub open spec fn sent_as_far_as(
    now: Seq<Seq<u8>>,
    pending: Seq<Seq<u8>>,
    before: Seq<Seq<u8>>,
    r: int,
    c: int,
) -> bool {
    forall|i: int, j: int|
        0 <= i < pending.len() && 0 <= j < pending[0].len() ==> #[trigger] now[i][j] == if i < r
            || (i == r && j < c) {
            pending[i][j]
        } else {
            before[i][j]
        }
}

/// Bringing one more cell up to date.
proof fn lemma_reconcile_cell(
    t: Screen,
    shown: Seq<Seq<u8>>,
    pending: Seq<Seq<u8>>,
    sent: Seq<Seq<u8>>,
    r: int,
    c: int,
)
    requires
        is_grid(pending, pending.len() as int, pending[0].len() as int),
        is_grid(sent, pending.len() as int, pending[0].len() as int),
        in_step(shown, pending, sent),
        0 <= r < pending.len() <= 256,
        0 <= c < pending[0].len() <= 256,
        reconciled_to(t, shown, pending, sent, r, c),
    ensures
        ({
            let columns = pending[0].len() as int;
            let next = t.after_all(cell_ops(pending, sent, r, c, columns));
            if c + 1 < columns {
                reconciled_to(next, shown, pending, sent, r, c + 1)
            } else {
                reconciled_to(next, shown, pending, sent, r + 1, 0)
            }
        }),
{
    let rows = pending.len() as int;
    let columns = pending[0].len() as int;
    let ops = cell_ops(pending, sent, r, c, columns);
    let x = pending[r][c];
    let next = t.after_all(ops);
    assert(t.after_all(Seq::<DisplayOp>::empty()) == t);
    assert(t.cells[r][c] == shown[r][c]);
    if pending[r][c] == sent[r][c] {
        assert(next == t);
        assert(shown[r][c] == pending[r][c]);
    } else {
        let at = t.moved(r, c);
        let written = at.put(x);
        assert(seq![x].drop_last() =~= Seq::<u8>::empty());
        assert(at.put_all(Seq::<u8>::empty()) == at);
        assert(at.put_all(seq![x]) == written);
        if cursor_lost(pending, sent, r, c, columns) {
            let first = seq![DisplayOp::SetCursor(r as u8, c as u8)];
            assert(ops.drop_last() =~= first);
            assert(first.drop_last() =~= Seq::<DisplayOp>::empty());
            assert(t.after_all(first) == at);
            assert(next == written);
        } else {
            assert(at == t);
            assert(ops.drop_last() =~= Seq::<DisplayOp>::empty());
            assert(next == written);
        }
        assert(is_grid(written.cells, rows, columns)) by {
            assert forall|i: int| 0 <= i < rows implies (#[trigger] written.cells[i]).len()
                == columns by {
                assert(t.cells[i].len() == columns);
            }
        }
        assert forall|i: int, j: int|
            0 <= i < rows && 0 <= j < columns implies #[trigger] written.cells[i][j] == if i < r
            || (i == r && j <= c) {
            pending[i][j]
        } else {
            shown[i][j]
        } by {
            assert(t.cells[i][j] == if i < r || (i == r && j < c) {
                pending[i][j]
            } else {
                shown[i][j]
            });
        }
    }
}

/// Bringing the first `c` cells of row `r` up to date.
proof fn lemma_reconcile_row(
    t: Screen,
    shown: Seq<Seq<u8>>,
    pending: Seq<Seq<u8>>,
    sent: Seq<Seq<u8>>,
    r: int,
    c: int,
)
    requires
        is_grid(pending, pending.len() as int, pending[0].len() as int),
        is_grid(sent, pending.len() as int, pending[0].len() as int),
        in_step(shown, pending, sent),
        0 <= r < pending.len() <= 256,
        0 <= c <= pending[0].len() <= 256,
        0 < pending[0].len(),
        reconciled_to(t, shown, pending, sent, r, 0),
    ensures
        ({
            let columns = pending[0].len() as int;
            let next = t.after_all(row_ops(pending, sent, r, c, columns));
            if c < columns {
                reconciled_to(next, shown, pending, sent, r, c)
            } else {
                reconciled_to(next, shown, pending, sent, r + 1, 0)
            }
        }),
    decreases c,
{
    let columns = pending[0].len() as int;
    if c == 0 {
        assert(t.after_all(Seq::<DisplayOp>::empty()) == t);
    } else {
        lemma_reconcile_row(t, shown, pending, sent, r, c - 1);
        let before = t.after_all(row_ops(pending, sent, r, c - 1, columns));
        lemma_reconcile_cell(before, shown, pending, sent, r, c - 1);
        lemma_after_all_append(
            t,
            row_ops(pending, sent, r, c - 1, columns),
            cell_ops(pending, sent, r, c - 1, columns),
        );
    }
}

/// Bringing the first `r` rows up to date.
proof fn lemma_reconcile_rows(
    t: Screen,
    shown: Seq<Seq<u8>>,
    pending: Seq<Seq<u8>>,
    sent: Seq<Seq<u8>>,
    r: int,
)
    requires
        is_grid(pending, pending.len() as int, pending[0].len() as int),
        is_grid(sent, pending.len() as int, pending[0].len() as int),
        in_step(shown, pending, sent),
        0 <= r <= pending.len() <= 256,
        0 < pending[0].len() <= 256,
        reconciled_to(t, shown, pending, sent, 0, 0),
    ensures
        reconciled_to(
            t.after_all(grid_ops(pending, sent, r, pending[0].len() as int)),
            shown,
            pending,
            sent,
            r,
            0,
        ),
    decreases r,
{
    let columns = pending[0].len() as int;
    if r == 0 {
        assert(t.after_all(Seq::<DisplayOp>::empty()) == t);
    } else {
        lemma_reconcile_rows(t, shown, pending, sent, r - 1);
        let before = t.after_all(grid_ops(pending, sent, r - 1, columns));
        lemma_reconcile_row(before, shown, pending, sent, r - 1, columns);
        lemma_after_all_append(
            t,
            grid_ops(pending, sent, r - 1, columns),
            row_ops(pending, sent, r - 1, columns, columns),
        );
    }
}

/// Reconciliation: on a display of the same size on which every cell that
/// counts as up to date shows its pending character, the operations of the
/// difference leave every cell showing what is pending. A display that
/// shows what was sent last is such a display.
pub proof fn lemma_diff_reconciles(t: Screen, pending: Seq<Seq<u8>>, sent: Seq<Seq<u8>>)
    requires
        0 < pending.len() <= 256,
        0 < pending[0].len() <= 256,
        is_grid(pending, pending.len() as int, pending[0].len() as int),
        is_grid(sent, pending.len() as int, pending[0].len() as int),
        t.wf(),
        in_step(t.cells, pending, sent),
    ensures
        t.after_all(diff_ops(pending, sent)).wf(),
        t.after_all(diff_ops(pending, sent)).cells == pending,
{
    lemma_reconcile_rows(t, t.cells, pending, sent, pending.len() as int);
    let done = t.after_all(diff_ops(pending, sent));
    assert(done.cells =~~= pending);
}

/// A display that shows what was sent last can be reconciled by
/// difference.
pub proof fn lemma_in_step_when_shown(pending: Seq<Seq<u8>>, sent: Seq<Seq<u8>>)
    requires
        is_grid(sent, pending.len() as int, pending[0].len() as int),
    ensures
        in_step(sent, pending, sent),
{
}

/// A character display with a cursor.
///
/// `screen` is what the display shows. A display that is `reliable` carries
/// out every operation that names a cell of its screen; any other display
/// may fail, and then says nothing of what it shows.
pub trait Display: Sized {
    type Error;

    /// What the display shows. A display that does not say shows nothing.
    open spec fn screen(&self) -> Screen {
        Screen { cells: Seq::empty(), row: 0, column: 0 }
    }

    /// Whether the display carries out every operation within its bounds.
    /// A display that does not say is not relied on.
    open spec fn reliable(&self) -> bool {
        false
    }

    /// Blanks the display and moves the cursor to the first cell.
    fn clear(&mut self) -> (r: Result<(), Self::Error>)
        requires
            old(self).screen().wf(),
        ensures
            final(self).screen().wf(),
            final(self).screen().rows() == old(self).screen().rows(),
            final(self).screen().columns() == old(self).screen().columns(),
            final(self).reliable() == old(self).reliable(),
            old(self).reliable() ==> r is Ok,
            r is Ok ==> final(self).screen() == old(self).screen().after(DisplayOp::Clear),
    ;

    /// Moves the cursor to a cell of the display.
    fn set_cursor_position(&mut self, row: u8, column: u8) -> (r: Result<(), Self::Error>)
        requires
            old(self).screen().wf(),
        ensures
            final(self).screen().wf(),
            final(self).screen().rows() == old(self).screen().rows(),
            final(self).screen().columns() == old(self).screen().columns(),
            final(self).reliable() == old(self).reliable(),
            old(self).reliable() && old(self).screen().in_bounds(DisplayOp::SetCursor(row, column))
                ==> r is Ok,
            r is Ok ==> row < old(self).screen().rows() && column < old(self).screen().columns()
                && final(self).screen() == old(self).screen().after(
                DisplayOp::SetCursor(row, column),
            ),
    ;

    /// Writes characters from the cursor on.
    fn write(&mut self, characters: &[u8]) -> (r: Result<(), Self::Error>)
        requires
            old(self).screen().wf(),
        ensures
            final(self).screen().wf(),
            final(self).screen().rows() == old(self).screen().rows(),
            final(self).screen().columns() == old(self).screen().columns(),
            final(self).reliable() == old(self).reliable(),
            old(self).reliable() ==> r is Ok,
            r is Ok ==> final(self).screen() == old(self).screen().after(
                DisplayOp::Write(characters@),
            ),
    ;
}

/// Why a buffered display refused an operation.
#[derive(Debug, Clone, Copy, PartialEq, Eq, Structural)]
pub enum BufferedDisplayError {
    /// The cursor position lies outside the display.
    OutOfBounds,
}

/// How the display marks the cursor.
#[derive(Debug, Clone, Copy, PartialEq, Eq, Structural)]
pub enum CursorMode {
    Underline,
    Blinking,
    Off,
}

/// A display of `ROWS` by `COLUMNS` characters that keeps what was written to
/// it, beside what it last sent to the display behind it.
pub struct BufferedDisplay<const ROWS: usize, const COLUMNS: usize> {
    backing_buffer: [[u8; COLUMNS]; ROWS],
    visible_buffer: [[u8; COLUMNS]; ROWS],
    current_row: usize,
    current_column: usize,
}

/// The grid of characters that a buffer holds.
pub open spec fn grid<const ROWS: usize, const COLUMNS: usize>(
    buffer: [[u8; COLUMNS]; ROWS],
) -> Seq<Seq<u8>> {
    Seq::new(ROWS as nat, |r: int| buffer@[r]@)
}

impl<const ROWS: usize, const COLUMNS: usize> BufferedDisplay<ROWS, COLUMNS> {
    /// The characters that were written and wait to be sent.
    pub closed spec fn pending(self) -> Seq<Seq<u8>> {
        grid(self.backing_buffer)
    }

    /// The characters that were sent last.
    pub closed spec fn last_sent(self) -> Seq<Seq<u8>> {
        grid(self.visible_buffer)
    }

    /// The cursor, as a row and a column.
    pub closed spec fn cursor(self) -> (int, int) {
        (self.current_row as int, self.current_column as int)
    }

    /// Well-formedness: the display is not empty, a byte can name each of its
    /// rows and columns, and the cursor lies on it.
    pub closed spec fn wf(self) -> bool {
        &&& 0 < ROWS <= 256
        &&& 0 < COLUMNS <= 256
        &&& self.current_row < ROWS
        &&& self.current_column < COLUMNS
    }

    /// The screen of the display holds its pending characters and cursor.
    pub proof fn lemma_screen(self)
        ensures
            self.screen() == (Screen {
                cells: self.pending(),
                row: self.cursor().0,
                column: self.cursor().1,
            }),
    {
    }

    /// A well-formed display shows a well-formed screen of its own size.
    pub proof fn lemma_wf(self)
        requires
            self.wf(),
        ensures
            self.screen().wf(),
            self.screen().rows() == ROWS,
            self.screen().columns() == COLUMNS,
            self.last_sent().len() == ROWS,
            forall|r: int| 0 <= r < ROWS ==> (#[trigger] self.last_sent()[r]).len() == COLUMNS,
            forall|r: int| 0 <= r < ROWS ==> (#[trigger] self.pending()[r]).len() == COLUMNS,
    {
    }

    /// Creates a display whose pending characters are blank and that has
    /// sent nothing: every cell counts as sent with the value 0.
    pub fn new() -> (d: Self)
        requires
            0 < ROWS <= 256,
            0 < COLUMNS <= 256,
        ensures
            d.wf(),
            d.reliable(),
            d.screen().wf(),
            d.screen().rows() == ROWS,
            d.screen().columns() == COLUMNS,
            d.cursor() == (0int, 0int),
            d.pending() == Seq::new(ROWS as nat, |r: int| Seq::new(COLUMNS as nat, |c: int| BLANK)),
            d.last_sent() == Seq::new(ROWS as nat, |r: int| Seq::new(COLUMNS as nat, |c: int| 0u8)),
    {
        let d = BufferedDisplay {
            backing_buffer: [[BLANK;COLUMNS];ROWS],
            visible_buffer: [[0u8;COLUMNS];ROWS],
            current_row: 0,
            current_column: 0,
        };
        assert(d.pending() =~~= Seq::new(
            ROWS as nat,
            |r: int| Seq::new(COLUMNS as nat, |c: int| BLANK),
        ));
        assert(d.last_sent() =~~= Seq::new(
            ROWS as nat,
            |r: int| Seq::new(COLUMNS as nat, |c: int| 0u8),
        ));
        d
    }
}

impl<const ROWS: usize, const COLUMNS: usize> BufferedDisplay<ROWS, COLUMNS> {
    /// Sends `target` the cells whose pending character differs from the one
    /// sent last, in row-major order, and records them as sent. Returns
    /// whether any cell differed.
    ///
    /// A reliable target that is no smaller than this display makes `apply`
    /// succeed, and a target of the same size that showed what was sent
    /// last then shows what is pending. Where the target fails, its error is returned at once;
    /// then the cells before the one at which it failed are recorded as
    /// sent, and the others as they were.
    pub fn apply<D: Display>(&mut self, target: &mut D) -> (r: Result<bool, D::Error>)
        requires
            old(self).wf(),
            old(target).screen().wf(),
        ensures
            final(self).wf(),
            final(self).pending() == old(self).pending(),
            final(self).cursor() == old(self).cursor(),
            final(self).screen() == old(self).screen(),
            final(target).screen().wf(),
            final(target).screen().rows() == old(target).screen().rows(),
            final(target).screen().columns() == old(target).screen().columns(),
            final(target).reliable() == old(target).reliable(),
            old(target).reliable() && old(target).screen().rows() >= ROWS && old(
                target,
            ).screen().columns() >= COLUMNS ==> r is Ok,
            r matches Ok(changed) ==> {
                &&& final(self).last_sent() == old(self).pending()
                &&& final(target).screen() == old(target).screen().after_all(
                    diff_ops(old(self).pending(), old(self).last_sent()),
                )
                &&& changed == (old(self).last_sent() != old(self).pending())
                &&& in_step(
                    old(target).screen().cells,
                    old(self).pending(),
                    old(self).last_sent(),
                ) ==> final(target).screen().cells == old(self).pending()
            },
            r is Err ==> exists|i: int, j: int|
                0 <= i < ROWS && 0 <= j < COLUMNS && #[trigger] sent_as_far_as(
                    final(self).last_sent(),
                    old(self).pending(),
                    old(self).last_sent(),
                    i,
                    j,
                ),
    {
        let ghost p = grid(self.backing_buffer);
        let ghost s0 = grid(self.visible_buffer);
        let ghost t0 = target.screen();
        let ghost mut done: Seq<DisplayOp> = Seq::empty();
        let mut changed = false;
        let mut set_pos = true;
        let mut row: usize = 0;
        while row < ROWS
            invariant
                row <= ROWS,
                0 < ROWS <= 256,
                0 < COLUMNS <= 256,
                self.backing_buffer == old(self).backing_buffer,
                self.current_row == old(self).current_row,
                self.current_column == old(self).current_column,
                self.current_row < ROWS,
                self.current_column < COLUMNS,
                p == grid(self.backing_buffer),
                s0 == grid(old(self).visible_buffer),
                t0 == old(target).screen(),
                target.screen().wf(),
                target.screen().rows() == t0.rows(),
                target.screen().columns() == t0.columns(),
                target.reliable() == old(target).reliable(),
                done == grid_ops(p, s0, row as int, COLUMNS as int),
                target.screen() == t0.after_all(done),
                set_pos == cursor_lost(p, s0, row as int, 0, COLUMNS as int),
                changed == exists|i: int, j: int|
                    0 <= i < row && 0 <= j < COLUMNS && #[trigger] p[i][j] != s0[i][j],
                forall|i: int, j: int|
                    0 <= i < row && 0 <= j < COLUMNS ==> #[trigger] self.visible_buffer@[i]@[j]
                        == p[i][j],
                forall|i: int, j: int|
                    row <= i < ROWS && 0 <= j < COLUMNS ==> #[trigger] self.visible_buffer@[i]@[j]
                        == s0[i][j],
            decreases ROWS - row,
        {
            let ghost before_row = done;
            let ghost changed_before = changed;
            let mut col: usize = 0;
            while col < COLUMNS
                invariant
                    row < ROWS,
                    col <= COLUMNS,
                    0 < ROWS <= 256,
                    0 < COLUMNS <= 256,
                    self.backing_buffer == old(self).backing_buffer,
                    self.current_row == old(self).current_row,
                    self.current_column == old(self).current_column,
                    self.current_row < ROWS,
                    self.current_column < COLUMNS,
                    p == grid(self.backing_buffer),
                    s0 == grid(old(self).visible_buffer),
                    t0 == old(target).screen(),
                    target.screen().wf(),
                    target.screen().rows() == t0.rows(),
                    target.screen().columns() == t0.columns(),
                    target.reliable() == old(target).reliable(),
                    before_row == grid_ops(p, s0, row as int, COLUMNS as int),
                    done == before_row + row_ops(p, s0, row as int, col as int, COLUMNS as int),
                    target.screen() == t0.after_all(done),
                    col < COLUMNS ==> set_pos == cursor_lost(
                        p,
                        s0,
                        row as int,
                        col as int,
                        COLUMNS as int,
                    ),
                    col == COLUMNS ==> set_pos == (p[row as int][COLUMNS - 1] == s0[row as int][COLUMNS
                        - 1]),
                    changed_before == exists|i: int, j: int|
                        0 <= i < row && 0 <= j < COLUMNS && #[trigger] p[i][j] != s0[i][j],
                    changed == (changed_before || exists|j: int|
                        0 <= j < col && #[trigger] p[row as int][j] != s0[row as int][j]),
                    forall|i: int, j: int|
                        0 <= i < row && 0 <= j < COLUMNS ==> #[trigger] self.visible_buffer@[i]@[j]
                            == p[i][j],
                    forall|j: int|
                        0 <= j < col ==> #[trigger] self.visible_buffer@[row as int]@[j]
                            == p[row as int][j],
                    forall|j: int|
                        col <= j < COLUMNS ==> #[trigger] self.visible_buffer@[row as int]@[j]
                            == s0[row as int][j],
                    forall|i: int, j: int|
                        row < i < ROWS && 0 <= j < COLUMNS ==> #[trigger] self.visible_buffer@[i]@[j]
                            == s0[i][j],
                decreases COLUMNS - col,
            {
                let pending = self.backing_buffer[row][col];
                let ghost cell = cell_ops(p, s0, row as int, col as int, COLUMNS as int);
                let ghost so_far = done;
                assert(pending == p[row as int][col as int]);
                assert(self.visible_buffer@[row as int]@[col as int] == s0[row as int][col as int]);
                if pending == self.visible_buffer[row][col] {
                    set_pos = true;
                    assert(so_far + cell =~= so_far);
                } else {
                    if set_pos {
                        match target.set_cursor_position(row as u8, col as u8) {
                            Ok(()) => {},
                            Err(e) => {
                                assert(sent_as_far_as(
                                    self.last_sent(),
                                    old(self).pending(),
                                    old(self).last_sent(),
                                    row as int,
                                    col as int,
                                ));
                                return Err(e);
                            },
                        }
                        set_pos = false;
                        proof {
                            done = done.push(DisplayOp::SetCursor(row as u8, col as u8));
                            assert(done.drop_last() =~= so_far);
                            assert(target.screen() == t0.after_all(done));
                        }
                    }
                    let one = [pending];
                    match target.write(&one) {
                        Ok(()) => {},
                        Err(e) => {
                            assert(sent_as_far_as(
                                self.last_sent(),
                                old(self).pending(),
                                old(self).last_sent(),
                                row as int,
                                col as int,
                            ));
                            return Err(e);
                        },
                    }
                    proof {
                        assert(one@ =~= seq![pending]);
                        let ghost mid = done;
                        done = done.push(DisplayOp::Write(seq![pending]));
                        assert(done.drop_last() =~= mid);
                        assert(target.screen() == t0.after_all(done));
                        assert(done =~= so_far + cell);
                    }
                    self.visible_buffer[row][col] = pending;
                    changed = true;
                }
                proof {
                    assert(row_ops(p, s0, row as int, col + 1, COLUMNS as int) == row_ops(
                        p,
                        s0,
                        row as int,
                        col as int,
                        COLUMNS as int,
                    ) + cell);
                    assert(done =~= before_row + row_ops(
                        p,
                        s0,
                        row as int,
                        col + 1,
                        COLUMNS as int,
                    ));
                }
                col += 1;
            }
            row += 1;
        }
        proof {
            assert(grid(self.visible_buffer) =~~= p);
            if !changed {
                assert(s0 =~~= p);
            }
            if in_step(t0.cells, p, s0) {
                lemma_diff_reconciles(t0, p, s0);
            }
        }
        Ok(changed)
    }

    /// Forgets what was sent: every cell counts as sent with the value 0, so
    /// that the next `apply` sends every pending character that is not 0.
    pub fn force_redraw(&mut self)
        requires
            old(self).wf(),
        ensures
            final(self).wf(),
            final(self).pending() == old(self).pending(),
            final(self).cursor() == old(self).cursor(),
            final(self).screen() == old(self).screen(),
            final(self).last_sent() == Seq::new(
                ROWS as nat,
                |r: int| Seq::new(COLUMNS as nat, |c: int| 0u8),
            ),
    {
        self.visible_buffer = [[0u8;COLUMNS];ROWS];
        assert(self.last_sent() =~~= Seq::new(
            ROWS as nat,
            |r: int| Seq::new(COLUMNS as nat, |c: int| 0u8),
        ));
    }

    /// The pending character at a cell, or `None` outside the display.
    pub fn pending_at(&self, row: usize, column: usize) -> (b: Option<u8>)
        ensures
            row < ROWS && column < COLUMNS ==> b == Some(self.pending()[row as int][column as int]),
            !(row < ROWS && column < COLUMNS) ==> b is None,
    {
        if row < ROWS && column < COLUMNS {
            Some(self.backing_buffer[row][column])
        } else {
            None
        }
    }

    /// The character last sent for a cell, or `None` outside the display.
    pub fn sent_at(&self, row: usize, column: usize) -> (b: Option<u8>)
        ensures
            row < ROWS && column < COLUMNS ==> b == Some(
                self.last_sent()[row as int][column as int],
            ),
            !(row < ROWS && column < COLUMNS) ==> b is None,
    {
        if row < ROWS && column < COLUMNS {
            Some(self.visible_buffer[row][column])
        } else {
            None
        }
    }

    /// The cursor, as a row and a column.
    pub fn cursor_position(&self) -> (p: (usize, usize))
        ensures
            (p.0 as int, p.1 as int) == self.cursor(),
    {
        (self.current_row, self.current_column)
    }
}

impl<const ROWS: usize, const COLUMNS: usize> Display for BufferedDisplay<ROWS, COLUMNS> {
    type Error = BufferedDisplayError;

    closed spec fn screen(&self) -> Screen {
        Screen {
            cells: grid(self.backing_buffer),
            row: self.current_row as int,
            column: self.current_column as int,
        }
    }

    open spec fn reliable(&self) -> bool {
        true
    }

    fn clear(&mut self) -> (r: Result<(), Self::Error>)
        ensures
            old(self).wf() ==> final(self).wf(),
            final(self).last_sent() == old(self).last_sent(),
    {
        let mut row: usize = 0;
        while row < ROWS
            invariant
                row <= ROWS,
                self.visible_buffer == old(self).visible_buffer,
                forall|r: int, c: int|
                    0 <= r < row && 0 <= c < COLUMNS ==> self.backing_buffer@[r]@[c] == BLANK,
            decreases ROWS - row,
        {
            let mut col: usize = 0;
            while col < COLUMNS
                invariant
                    row < ROWS,
                    col <= COLUMNS,
                    self.visible_buffer == old(self).visible_buffer,
                    forall|r: int, c: int|
                        0 <= r < row && 0 <= c < COLUMNS ==> self.backing_buffer@[r]@[c] == BLANK,
                    forall|c: int| 0 <= c < col ==> self.backing_buffer@[row as int]@[c] == BLANK,
                decreases COLUMNS - col,
            {
                self.backing_buffer[row][col] = BLANK;
                col += 1;
            }
            row += 1;
        }
        self.current_row = 0;
        self.current_column = 0;
        assert(self.screen().cells =~~= old(self).screen().cleared().cells);
        Ok(())
    }

    fn set_cursor_position(&mut self, row: u8, column: u8) -> (r: Result<(), Self::Error>)
        ensures
            r is Ok <==> row < ROWS && column < COLUMNS,
            r is Err ==> *final(self) == *old(self),
            old(self).wf() ==> final(self).wf(),
            final(self).last_sent() == old(self).last_sent(),
    {
        if row as usize >= ROWS || column as usize >= COLUMNS {
            return Err(BufferedDisplayError::OutOfBounds);
        }
        self.current_row = row as usize;
        self.current_column = column as usize;
        Ok(())
    }

    fn write(&mut self, characters: &[u8]) -> (r: Result<(), Self::Error>)
        ensures
            old(self).wf() ==> final(self).wf(),
            final(self).last_sent() == old(self).last_sent(),
    {
        let mut i: usize = 0;
        while i < characters.len()
            invariant
                i <= characters@.len(),
                old(self).wf() ==> self.wf(),
                self.screen().wf(),
                self.screen().rows() == ROWS,
                self.screen().columns() == COLUMNS,
                self.visible_buffer == old(self).visible_buffer,
                self.screen() == old(self).screen().put_all(characters@.subrange(0, i as int)),
            decreases characters@.len() - i,
        {
            let ghost before = self.screen();
            self.backing_buffer[self.current_row][self.current_column] = characters[i];
            self.current_column += 1;
            if self.current_column >= COLUMNS {
                self.current_column = 0;
                self.current_row += 1;
                if self.current_row >= ROWS {
                    self.current_row = 0;
                }
            }
            proof {
                assert(self.screen().cells =~~= before.put(characters@[i as int]).cells);
                assert(characters@.subrange(0, i + 1).drop_last() =~= characters@.subrange(
                    0,
                    i as int,
                ));
                lemma_put_wf(before, characters@[i as int]);
            }
            i += 1;
        }
        assert(characters@.subrange(0, i as int) =~= characters@);
        Ok(())
    }
}

/// Register of the display controller that takes commands.
pub const REG_CMD: u8 = 0x00;

/// Command that moves the cursor; the cell's address follows.
pub const CMD_SET_CURSOR: u8 = 0x02;

/// Commands that choose how the cursor is marked.
pub const CMD_CURSOR_OFF: u8 = 0x04;

pub const CMD_CURSOR_UNDERLINE: u8 = 0x05;

pub const CMD_CURSOR_BLINKING: u8 = 0x06;

/// Command that blanks the display.
pub const CMD_CLEAR: u8 = 0x0c;

/// Commands that switch the backlight on and off.
pub const CMD_BACKLIGHT_ON: u8 = 0x13;

pub const CMD_BACKLIGHT_OFF: u8 = 0x14;

/// Command that sets the display type; the type follows.
pub const CMD_SET_TYPE: u8 = 0x18;

/// Command that sets the contrast; the contrast follows.
pub const CMD_CONTRAST: u8 = 0x1e;

/// Command that sets the brightness of the backlight; the brightness follows.
pub const CMD_BRIGHTNESS: u8 = 0x1f;

/// The address that the display controller gives the cell at `row`,
/// `column` of a display with `columns` columns: cells are counted in
/// row-major order, from 1.
pub open spec fn cell_address(row: int, column: int, columns: int) -> int {
    row * columns + column + 1
}

/// Driver of a character display on an I2C bus. It turns each operation
/// into the command bytes of the display controller and queues them; the
/// owner of the bus takes them with `take_commands` and sends each as one
/// write of `frame` to `address`.
pub struct I2CDisplayDriver {
    address: u8,
    rows: u8,
    columns: u8,
    outbox: Vec<u8>,
    shown: Ghost<Screen>,
}

impl I2CDisplayDriver {
    /// The command bytes that were queued and not yet taken, oldest first.
    pub closed spec fn commands(self) -> Seq<u8> {
        self.outbox@
    }

    /// Bus address of the display.
    pub closed spec fn spec_address(self) -> u8 {
        self.address
    }

    /// Number of rows that the driver was made for.
    pub closed spec fn spec_rows(self) -> u8 {
        self.rows
    }

    /// Number of columns that the driver was made for.
    pub closed spec fn spec_columns(self) -> u8 {
        self.columns
    }

    /// Well-formedness: the model of the display has the driver's size.
    pub closed spec fn wf(self) -> bool {
        &&& self.shown@.cells.len() == self.rows
        &&& forall|r: int|
            0 <= r < self.rows ==> (#[trigger] self.shown@.cells[r]).len() == self.columns
        &&& self.rows > 0 && self.columns > 0 ==> self.shown@.wf()
    }

    /// A well-formed driver of a display that is not empty shows a
    /// well-formed screen of its size.
    pub proof fn lemma_wf(self)
        requires
            self.wf(),
            self.spec_rows() > 0,
            self.spec_columns() > 0,
        ensures
            self.screen().wf(),
            self.screen().rows() == self.spec_rows(),
            self.screen().columns() == self.spec_columns(),
    {
    }

    /// Creates a driver for the display at bus address `address`, with
    /// nothing queued. The display is taken to be blank.
    pub fn new(address: u8, rows: u8, columns: u8) -> (d: Self)
        ensures
            d.wf(),
            d.commands() == Seq::<u8>::empty(),
            d.spec_address() == address,
            d.spec_rows() == rows,
            d.spec_columns() == columns,
            d.screen() == (Screen {
                cells: Seq::new(rows as nat, |r: int| Seq::new(columns as nat, |c: int| BLANK)),
                row: 0,
                column: 0,
            }),
    {
        I2CDisplayDriver {
            address,
            rows,
            columns,
            outbox: Vec::new(),
            shown: Ghost(
                Screen {
                    cells: Seq::new(rows as nat, |r: int| Seq::new(columns as nat, |c: int| BLANK)),
                    row: 0,
                    column: 0,
                },
            ),
        }
    }

    /// Bus address of the display.
    pub fn address(&self) -> (a: u8)
        ensures
            a == self.spec_address(),
    {
        self.address
    }

    /// The bytes of the bus write that carries one command: the command
    /// register, then the command.
    pub fn frame(cmd: u8) -> (f: [u8; 2])
        ensures
            f@ == seq![REG_CMD, cmd],
    {
        let f = [REG_CMD, cmd];
        assert(f@ =~= seq![REG_CMD, cmd]);
        f
    }

    /// Takes the queued command bytes, oldest first, and leaves none queued.
    pub fn take_commands(&mut self) -> (taken: Vec<u8>)
        requires
            old(self).wf(),
        ensures
            final(self).wf(),
            taken@ == old(self).commands(),
            final(self).commands() == Seq::<u8>::empty(),
            final(self).screen() == old(self).screen(),
            final(self).spec_address() == old(self).spec_address(),
            final(self).spec_rows() == old(self).spec_rows(),
            final(self).spec_columns() == old(self).spec_columns(),
    {
        let mut taken: Vec<u8> = Vec::new();
        core::mem::swap(&mut self.outbox, &mut taken);
        taken
    }

    /// Queues one command byte.
    fn cmd(&mut self, cmd: u8)
        requires
            old(self).wf(),
        ensures
            final(self).wf(),
            final(self).commands() == old(self).commands().push(cmd),
            final(self).screen() == old(self).screen(),
            final(self).spec_address() == old(self).spec_address(),
            final(self).spec_rows() == old(self).spec_rows(),
            final(self).spec_columns() == old(self).spec_columns(),
    {
        self.outbox.push(cmd);
    }

    /// Queues the commands that set the display type. The display needs ten
    /// milliseconds before its next command.
    pub fn set_type(&mut self, t: u8)
        requires
            old(self).wf(),
        ensures
            final(self).wf(),
            final(self).commands() == old(self).commands() + seq![CMD_SET_TYPE, t],
            final(self).screen() == old(self).screen(),
            final(self).spec_address() == old(self).spec_address(),
            final(self).spec_rows() == old(self).spec_rows(),
            final(self).spec_columns() == old(self).spec_columns(),
    {
        self.cmd(CMD_SET_TYPE);
        self.cmd(t);
        assert(self.commands() =~= old(self).commands() + seq![CMD_SET_TYPE, t]);
    }

    /// Queues the command that chooses how the cursor is marked.
    pub fn set_cursor_mode(&mut self, mode: CursorMode)
        requires
            old(self).wf(),
        ensures
            final(self).wf(),
            final(self).commands() == old(self).commands().push(
                match mode {
                    CursorMode::Underline => CMD_CURSOR_UNDERLINE,
                    CursorMode::Blinking => CMD_CURSOR_BLINKING,
                    CursorMode::Off => CMD_CURSOR_OFF,
                },
            ),
            final(self).screen() == old(self).screen(),
            final(self).spec_address() == old(self).spec_address(),
            final(self).spec_rows() == old(self).spec_rows(),
            final(self).spec_columns() == old(self).spec_columns(),
    {
        match mode {
            CursorMode::Underline => self.cmd(CMD_CURSOR_UNDERLINE),
            CursorMode::Blinking => self.cmd(CMD_CURSOR_BLINKING),
            CursorMode::Off => self.cmd(CMD_CURSOR_OFF),
        }
    }

    /// Queues the command that switches the backlight on or off.
    pub fn set_backlight_enabled(&mut self, on: bool)
        requires
            old(self).wf(),
        ensures
            final(self).wf(),
            final(self).commands() == old(self).commands().push(
                if on {
                    CMD_BACKLIGHT_ON
                } else {
                    CMD_BACKLIGHT_OFF
                },
            ),
            final(self).screen() == old(self).screen(),
            final(self).spec_address() == old(self).spec_address(),
            final(self).spec_rows() == old(self).spec_rows(),
            final(self).spec_columns() == old(self).spec_columns(),
    {
        if on {
            self.cmd(CMD_BACKLIGHT_ON)
        } else {
            self.cmd(CMD_BACKLIGHT_OFF)
        }
    }

    /// Queues the commands that set the brightness of the backlight.
    pub fn set_backlight_brightness(&mut self, brightness: u8)
        requires
            old(self).wf(),
        ensures
            final(self).wf(),
            final(self).commands() == old(self).commands() + seq![CMD_BRIGHTNESS, brightness],
            final(self).screen() == old(self).screen(),
            final(self).spec_address() == old(self).spec_address(),
            final(self).spec_rows() == old(self).spec_rows(),
            final(self).spec_columns() == old(self).spec_columns(),
    {
        self.cmd(CMD_BRIGHTNESS);
        self.cmd(brightness);
        assert(self.commands() =~= old(self).commands() + seq![CMD_BRIGHTNESS, brightness]);
    }

    /// Queues the commands that set the contrast.
    pub fn set_contrast(&mut self, contrast: u8)
        requires
            old(self).wf(),
        ensures
            final(self).wf(),
            final(self).commands() == old(self).commands() + seq![CMD_CONTRAST, contrast],
            final(self).screen() == old(self).screen(),
            final(self).spec_address() == old(self).spec_address(),
            final(self).spec_rows() == old(self).spec_rows(),
            final(self).spec_columns() == old(self).spec_columns(),
    {
        self.cmd(CMD_CONTRAST);
        self.cmd(contrast);
        assert(self.commands() =~= old(self).commands() + seq![CMD_CONTRAST, contrast]);
    }
}

/// On a display whose cells one byte can address, every cell has an address
/// from 1 to 255.
pub proof fn lemma_cell_address_fits(row: int, column: int, rows: int, columns: int)
    requires
        0 <= row < rows,
        0 <= column < columns,
        rows * columns <= 255,
    ensures
        1 <= cell_address(row, column, columns) <= 255,
{
    assert(row * columns <= (rows - 1) * columns) by (nonlinear_arith)
        requires
            0 <= row <= rows - 1,
            0 <= columns,
    ;
    assert((rows - 1) * columns == rows * columns - columns) by (nonlinear_arith);
    assert(0 <= row * columns) by (nonlinear_arith)
        requires
            0 <= row,
            0 <= columns,
    ;
}

impl Display for I2CDisplayDriver {
    type Error = BufferedDisplayError;

    /// What the display shows once it has carried out the queued commands.
    /// A driver that is not well-formed shows nothing.
    closed spec fn screen(&self) -> Screen {
        if self.wf() {
            self.shown@
        } else {
            Screen { cells: Seq::empty(), row: 0, column: 0 }
        }
    }

    /// The driver carries out every operation within its bounds where one
    /// byte can address each cell of the display.
    closed spec fn reliable(&self) -> bool {
        self.wf() && self.rows * self.columns <= 255
    }

    /// Queues the command that blanks the display.
    fn clear(&mut self) -> (r: Result<(), Self::Error>)
        ensures
            r is Ok,
            old(self).wf() ==> final(self).wf(),
            old(self).wf() ==> final(self).commands() == old(self).commands().push(CMD_CLEAR),
            final(self).spec_address() == old(self).spec_address(),
            final(self).spec_rows() == old(self).spec_rows(),
            final(self).spec_columns() == old(self).spec_columns(),
    {
        self.outbox.push(CMD_CLEAR);
        proof {
            self.shown@ = self.shown@.cleared();
        }
        Ok(())
    }

    /// Queues the commands that move the cursor to a cell. A cell outside
    /// the display, or one whose address does not fit a byte, is refused and
    /// nothing is queued.
    fn set_cursor_position(&mut self, row: u8, column: u8) -> (r: Result<(), Self::Error>)
        ensures
            r is Ok <==> row < old(self).spec_rows() && column < old(self).spec_columns()
                && cell_address(row as int, column as int, old(self).spec_columns() as int) <= 255,
            r is Err ==> *final(self) == *old(self),
            r is Ok && old(self).wf() ==> final(self).wf(),
            r is Ok && old(self).wf() ==> final(self).commands() == old(self).commands() + seq![
                CMD_SET_CURSOR,
                cell_address(row as int, column as int, old(self).spec_columns() as int) as u8,
            ],
            final(self).spec_address() == old(self).spec_address(),
            final(self).spec_rows() == old(self).spec_rows(),
            final(self).spec_columns() == old(self).spec_columns(),
    {
        if row >= self.rows || column >= self.columns {
            return Err(BufferedDisplayError::OutOfBounds);
        }
        assert(0 <= row * self.columns <= 65025) by (nonlinear_arith)
            requires
                0 <= row <= 255,
                0 <= self.columns <= 255,
        ;
        let position: u32 = row as u32 * self.columns as u32 + column as u32 + 1;
        if position > 255 {
            proof {
                if self.reliable() {
                    lemma_cell_address_fits(
                        row as int,
                        column as int,
                        self.rows as int,
                        self.columns as int,
                    );
                }
            }
            return Err(BufferedDisplayError::OutOfBounds);
        }
        self.outbox.push(CMD_SET_CURSOR);
        self.outbox.push(position as u8);
        proof {
            self.shown@ = self.shown@.moved(row as int, column as int);
            assert(self.outbox@ =~= old(self).outbox@ + seq![CMD_SET_CURSOR, position as u8]);
        }
        Ok(())
    }

    /// Queues the characters, each as one command.
    fn write(&mut self, characters: &[u8]) -> (r: Result<(), Self::Error>)
        ensures
            r is Ok,
            old(self).wf() ==> final(self).wf() && final(self).commands() == old(self).commands()
                + characters@,
            final(self).spec_address() == old(self).spec_address(),
            final(self).spec_rows() == old(self).spec_rows(),
            final(self).spec_columns() == old(self).spec_columns(),
    {
        let mut i: usize = 0;
        while i < characters.len()
            invariant
                i <= characters@.len(),
                self.address == old(self).address,
                self.rows == old(self).rows,
                self.columns == old(self).columns,
                self.shown@ == old(self).shown@,
                self.outbox@ == old(self).outbox@ + characters@.subrange(0, i as int),
            decreases characters@.len() - i,
        {
            self.outbox.push(characters[i]);
            assert(self.outbox@ =~= old(self).outbox@ + characters@.subrange(0, i + 1));
            i += 1;
        }
        proof {
            assert(characters@.subrange(0, i as int) =~= characters@);
            lemma_put_all_wf(self.shown@, characters@);
            self.shown@ = self.shown@.put_all(characters@);
        }
        Ok(())
    }
}

} // verus!
