use bedside_clock::display::BufferedDisplay;
use bedside_clock::display::BufferedDisplayError;
use bedside_clock::display::CursorMode;
use bedside_clock::display::Display;
use bedside_clock::display::I2CDisplayDriver;

/// What a recording display was asked for.
#[derive(Debug, Clone, PartialEq, Eq)]
enum Op {
    Clear,
    Move(u8, u8),
    Write(Vec<u8>),
}

/// A display that records every operation, and fails from a given
/// operation on.
struct Recorder {
    ops: Vec<Op>,
    fail_from: usize,
}

impl Recorder {
    fn new() -> Recorder {
        Recorder { ops: Vec::new(), fail_from: usize::MAX }
    }

    fn record(&mut self, op: Op) -> Result<(), u8> {
        if self.ops.len() >= self.fail_from {
            return Err(7);
        }
        self.ops.push(op);
        Ok(())
    }
}

impl Display for Recorder {
    type Error = u8;

    fn clear(&mut self) -> Result<(), u8> {
        self.record(Op::Clear)
    }

    fn set_cursor_position(&mut self, row: u8, column: u8) -> Result<(), u8> {
        self.record(Op::Move(row, column))
    }

    fn write(&mut self, characters: &[u8]) -> Result<(), u8> {
        self.record(Op::Write(characters.to_vec()))
    }
}

fn row_of(d: &BufferedDisplay<4, 20>, row: usize) -> Vec<u8> {
    (0..20).map(|c| d.pending_at(row, c).unwrap()).collect()
}

#[test]
fn new_display_is_blank_and_unsent() {
    let d: BufferedDisplay<4, 20> = BufferedDisplay::new();
    for r in 0..4 {
        for c in 0..20 {
            assert_eq!(d.pending_at(r, c), Some(b' '));
            assert_eq!(d.sent_at(r, c), Some(0));
        }
    }
    assert_eq!(d.pending_at(4, 0), None);
    assert_eq!(d.pending_at(0, 20), None);
    assert_eq!(d.sent_at(4, 0), None);
    assert_eq!(d.cursor_position(), (0, 0));
}

#[test]
fn cursor_out_of_bounds_is_refused() {
    let mut d: BufferedDisplay<4, 20> = BufferedDisplay::new();
    d.set_cursor_position(1, 2).unwrap();
    assert_eq!(d.set_cursor_position(4, 0), Err(BufferedDisplayError::OutOfBounds));
    assert_eq!(d.set_cursor_position(0, 20), Err(BufferedDisplayError::OutOfBounds));
    assert_eq!(d.set_cursor_position(255, 255), Err(BufferedDisplayError::OutOfBounds));
    assert_eq!(d.cursor_position(), (1, 2));
    assert_eq!(d.set_cursor_position(3, 19), Ok(()));
    assert_eq!(d.cursor_position(), (3, 19));
}

#[test]
fn write_advances_the_cursor() {
    let mut d: BufferedDisplay<4, 20> = BufferedDisplay::new();
    d.set_cursor_position(1, 3).unwrap();
    d.write(b"abc").unwrap();
    assert_eq!(d.pending_at(1, 3), Some(b'a'));
    assert_eq!(d.pending_at(1, 4), Some(b'b'));
    assert_eq!(d.pending_at(1, 5), Some(b'c'));
    assert_eq!(d.pending_at(1, 6), Some(b' '));
    assert_eq!(d.cursor_position(), (1, 6));
}

#[test]
fn write_wraps_to_the_next_row() {
    let mut d: BufferedDisplay<4, 20> = BufferedDisplay::new();
    d.set_cursor_position(0, 18).unwrap();
    d.write(b"wxyz").unwrap();
    assert_eq!(d.pending_at(0, 18), Some(b'w'));
    assert_eq!(d.pending_at(0, 19), Some(b'x'));
    assert_eq!(d.pending_at(1, 0), Some(b'y'));
    assert_eq!(d.pending_at(1, 1), Some(b'z'));
    assert_eq!(d.cursor_position(), (1, 2));
}

#[test]
fn write_wraps_from_the_last_row_to_the_first() {
    let mut d: BufferedDisplay<4, 20> = BufferedDisplay::new();
    d.set_cursor_position(3, 19).unwrap();
    d.write(b"pq").unwrap();
    assert_eq!(d.pending_at(3, 19), Some(b'p'));
    assert_eq!(d.pending_at(0, 0), Some(b'q'));
    assert_eq!(d.cursor_position(), (0, 1));
}

#[test]
fn write_of_nothing_changes_nothing() {
    let mut d: BufferedDisplay<4, 20> = BufferedDisplay::new();
    d.set_cursor_position(2, 2).unwrap();
    d.write(b"").unwrap();
    assert_eq!(d.cursor_position(), (2, 2));
    assert_eq!(row_of(&d, 2), vec![b' '; 20]);
}

#[test]
fn clear_blanks_and_homes() {
    let mut d: BufferedDisplay<4, 20> = BufferedDisplay::new();
    d.set_cursor_position(2, 5).unwrap();
    d.write(b"hello").unwrap();
    d.clear().unwrap();
    assert_eq!(d.cursor_position(), (0, 0));
    for r in 0..4 {
        assert_eq!(row_of(&d, r), vec![b' '; 20]);
    }
}

#[test]
fn first_apply_sends_every_cell_in_one_run() {
    let mut d: BufferedDisplay<2, 3> = BufferedDisplay::new();
    let mut t = Recorder::new();
    assert_eq!(d.apply(&mut t), Ok(true));
    let mut want = vec![Op::Move(0, 0)];
    for _ in 0..6 {
        want.push(Op::Write(vec![b' ']));
    }
    assert_eq!(t.ops, want);
    for r in 0..2 {
        for c in 0..3 {
            assert_eq!(d.sent_at(r, c), Some(b' '));
        }
    }
}

#[test]
fn second_apply_of_the_same_content_sends_nothing() {
    let mut d: BufferedDisplay<4, 20> = BufferedDisplay::new();
    let mut t = Recorder::new();
    d.set_cursor_position(1, 4).unwrap();
    d.write(b"same").unwrap();
    assert_eq!(d.apply(&mut t), Ok(true));
    let sent = t.ops.len();
    d.clear().unwrap();
    d.set_cursor_position(1, 4).unwrap();
    d.write(b"same").unwrap();
    assert_eq!(d.apply(&mut t), Ok(false));
    assert_eq!(t.ops.len(), sent);
    assert_eq!(d.apply(&mut t), Ok(false));
    assert_eq!(t.ops.len(), sent);
}

#[test]
fn apply_moves_the_cursor_once_per_run() {
    let mut d: BufferedDisplay<4, 20> = BufferedDisplay::new();
    let mut t = Recorder::new();
    d.apply(&mut t).unwrap();
    t.ops.clear();
    d.set_cursor_position(0, 2).unwrap();
    d.write(b"ab").unwrap();
    d.set_cursor_position(0, 5).unwrap();
    d.write(b"c").unwrap();
    d.set_cursor_position(2, 19).unwrap();
    d.write(b"de").unwrap();
    assert_eq!(d.apply(&mut t), Ok(true));
    assert_eq!(
        t.ops,
        vec![
            Op::Move(0, 2),
            Op::Write(vec![b'a']),
            Op::Write(vec![b'b']),
            Op::Move(0, 5),
            Op::Write(vec![b'c']),
            Op::Move(2, 19),
            Op::Write(vec![b'd']),
            Op::Write(vec![b'e']),
        ]
    );
}

#[test]
fn apply_skips_cells_rewritten_with_the_same_character() {
    let mut d: BufferedDisplay<4, 20> = BufferedDisplay::new();
    let mut t = Recorder::new();
    d.write(b"12:00").unwrap();
    d.apply(&mut t).unwrap();
    t.ops.clear();
    d.clear().unwrap();
    d.write(b"12:01").unwrap();
    assert_eq!(d.apply(&mut t), Ok(true));
    assert_eq!(t.ops, vec![Op::Move(0, 4), Op::Write(vec![b'1'])]);
}

#[test]
fn apply_returns_the_error_of_the_display_behind() {
    let mut d: BufferedDisplay<2, 3> = BufferedDisplay::new();
    let mut t = Recorder::new();
    t.fail_from = 3;
    assert_eq!(d.apply(&mut t), Err(7));
    assert_eq!(t.ops, vec![Op::Move(0, 0), Op::Write(vec![b' ']), Op::Write(vec![b' '])]);
    assert_eq!(d.sent_at(0, 0), Some(b' '));
    assert_eq!(d.sent_at(0, 1), Some(b' '));
    assert_eq!(d.sent_at(0, 2), Some(0));
    assert_eq!(d.sent_at(1, 0), Some(0));
    t.fail_from = usize::MAX;
    t.ops.clear();
    assert_eq!(d.apply(&mut t), Ok(true));
    assert_eq!(
        t.ops,
        vec![
            Op::Move(0, 2),
            Op::Write(vec![b' ']),
            Op::Write(vec![b' ']),
            Op::Write(vec![b' ']),
            Op::Write(vec![b' ']),
        ]
    );
}

#[test]
fn apply_onto_a_buffered_display_copies_the_cells() {
    let mut d: BufferedDisplay<4, 20> = BufferedDisplay::new();
    let mut behind: BufferedDisplay<4, 20> = BufferedDisplay::new();
    d.set_cursor_position(3, 17).unwrap();
    d.write(b"end").unwrap();
    assert_eq!(d.apply(&mut behind), Ok(true));
    for r in 0..4 {
        for c in 0..20 {
            assert_eq!(behind.pending_at(r, c), d.pending_at(r, c));
        }
    }
    assert_eq!(d.apply(&mut behind), Ok(false));
}

#[test]
fn force_redraw_forgets_what_was_sent() {
    let mut d: BufferedDisplay<2, 2> = BufferedDisplay::new();
    let mut t = Recorder::new();
    d.write(b"ab").unwrap();
    d.apply(&mut t).unwrap();
    t.ops.clear();
    d.force_redraw();
    assert_eq!(d.sent_at(0, 0), Some(0));
    assert_eq!(d.pending_at(0, 0), Some(b'a'));
    assert_eq!(d.apply(&mut t), Ok(true));
    assert_eq!(
        t.ops,
        vec![
            Op::Move(0, 0),
            Op::Write(vec![b'a']),
            Op::Write(vec![b'b']),
            Op::Write(vec![b' ']),
            Op::Write(vec![b' ']),
        ]
    );
}

#[test]
fn driver_starts_with_nothing_queued() {
    let mut d = I2CDisplayDriver::new(0x63, 4, 20);
    assert_eq!(d.address(), 0x63);
    assert_eq!(d.take_commands(), Vec::<u8>::new());
}

#[test]
fn driver_frames_commands_for_the_command_register() {
    assert_eq!(I2CDisplayDriver::frame(0x0c), [0x00, 0x0c]);
    assert_eq!(I2CDisplayDriver::frame(b'A'), [0x00, 0x41]);
}

#[test]
fn driver_queues_setup_commands() {
    let mut d = I2CDisplayDriver::new(0x63, 4, 20);
    d.set_type(4);
    d.set_cursor_mode(CursorMode::Off);
    d.set_cursor_mode(CursorMode::Underline);
    d.set_cursor_mode(CursorMode::Blinking);
    d.set_backlight_brightness(64);
    d.set_backlight_enabled(true);
    d.set_backlight_enabled(false);
    d.set_contrast(9);
    assert_eq!(
        d.take_commands(),
        vec![0x18, 4, 0x04, 0x05, 0x06, 0x1f, 64, 0x13, 0x14, 0x1e, 9]
    );
    assert_eq!(d.take_commands(), Vec::<u8>::new());
}

#[test]
fn driver_queues_display_operations() {
    let mut d = I2CDisplayDriver::new(0x63, 4, 20);
    d.clear().unwrap();
    d.set_cursor_position(0, 0).unwrap();
    d.write(b"Hi").unwrap();
    d.set_cursor_position(3, 19).unwrap();
    d.set_cursor_position(2, 3).unwrap();
    assert_eq!(d.take_commands(), vec![0x0c, 0x02, 1, b'H', b'i', 0x02, 80, 0x02, 44]);
}

#[test]
fn driver_refuses_cells_outside_the_display() {
    let mut d = I2CDisplayDriver::new(0x63, 4, 20);
    assert_eq!(d.set_cursor_position(4, 0), Err(BufferedDisplayError::OutOfBounds));
    assert_eq!(d.set_cursor_position(0, 20), Err(BufferedDisplayError::OutOfBounds));
    assert_eq!(d.take_commands(), Vec::<u8>::new());
}

#[test]
fn driver_refuses_cells_without_a_byte_address() {
    let mut d = I2CDisplayDriver::new(0x63, 16, 16);
    assert_eq!(d.set_cursor_position(15, 14), Ok(()));
    assert_eq!(d.set_cursor_position(15, 15), Err(BufferedDisplayError::OutOfBounds));
    assert_eq!(d.take_commands(), vec![0x02, 255]);
}

#[test]
fn apply_onto_the_driver_queues_moves_and_characters() {
    let mut d: BufferedDisplay<4, 20> = BufferedDisplay::new();
    let mut driver = I2CDisplayDriver::new(0x63, 4, 20);
    assert_eq!(d.apply(&mut driver), Ok(true));
    driver.take_commands();
    d.set_cursor_position(1, 0).unwrap();
    d.write(b"ok").unwrap();
    assert_eq!(d.apply(&mut driver), Ok(true));
    assert_eq!(driver.take_commands(), vec![0x02, 21, b'o', b'k']);
    assert_eq!(d.apply(&mut driver), Ok(false));
    assert_eq!(driver.take_commands(), Vec::<u8>::new());
}
