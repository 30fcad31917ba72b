//! The durable logger: records are encoded into a two-block buffer, leave it
//! one full block at a time, and every block that reaches storage is followed
//! by a write of the settings block, so that the write cursor survives a loss
//! of power.
//!
//! The logger performs no storage operation itself. Each call answers with a
//! `StorageRequest`; the caller carries it out and reports the outcome with
//! `block_written` or `settings_stored`.

use crate::clock::ClockState;
use crate::codec::le_bytes;
use crate::codec::le_value;
use crate::codec::lemma_overwrite_append;
use crate::codec::overwrite;
use crate::codec::postcard_to_slice_u32;
use crate::mpu::Measurement;
use crate::sdcard::PostcardError;
use crate::sdcard::lemma_settings_round_trip;
use crate::sdcard::Settings;
use crate::sdcard::StorageError;
use crate::sdcard::SDIO_BLOCK_SETTINGS;
use crate::sdcard::SD_BLOCK_SIZE;
use vstd::prelude::*;

verus! {

/// Number of storage blocks that the log buffer spans.
pub const BUFFER_SD_PAGES: usize = 2;

/// Size of the log buffer in bytes.
pub const BUFFER_SIZE: usize = 1024;

/// The instant at which an entry was logged.
#[derive(Debug, Clone, Copy, PartialEq, Eq, Structural)]
pub struct LogTimestamp {
    pub hour: u8,
    pub minute: u8,
    pub second: u8,
    pub day: u8,
    pub month: u8,
    pub year: u8,
}

impl LogTimestamp {
    /// The timestamp that a clock reading gives: the reading without its
    /// weekday.
    pub open spec fn of(s: ClockState) -> LogTimestamp {
        LogTimestamp {
            hour: s.hour,
            minute: s.minute,
            second: s.second,
            day: s.day,
            month: s.month,
            year: s.year,
        }
    }

    /// The encoded timestamp: one byte per field.
    pub open spec fn bytes(self) -> Seq<u8> {
        seq![self.hour, self.minute, self.second, self.day, self.month, self.year]
    }
}

impl From<&ClockState> for LogTimestamp {
    fn from(s: &ClockState) -> (t: Self) {
        LogTimestamp {
            hour: s.hour,
            minute: s.minute,
            second: s.second,
            day: s.day,
            month: s.month,
            year: s.year,
        }
    }
}

impl vstd::std_specs::convert::FromSpecImpl<&ClockState> for LogTimestamp {
    open spec fn obeys_from_spec() -> bool {
        true
    }

    open spec fn from_spec(s: &ClockState) -> Self {
        LogTimestamp::of(*s)
    }
}

/// What an entry records.
#[derive(Debug, Clone, Copy, PartialEq, Eq, Structural)]
pub enum LogContents {
    /// A completed motion sample.
    Measurement(Measurement),
    /// The alarm fired.
    Alarm,
}

impl LogContents {
    /// The encoded contents: the variant's index in one byte, then its
    /// fields.
    pub open spec fn bytes(self) -> Seq<u8> {
        match self {
            LogContents::Measurement(m) => seq![0u8] + m.bytes(),
            LogContents::Alarm => seq![1u8],
        }
    }
}

/// One log record.
#[derive(Debug, Clone, Copy, PartialEq, Eq, Structural)]
pub struct LogEntry {
    pub timestamp: LogTimestamp,
    pub contents: LogContents,
}

impl LogEntry {
    /// The entry that records `contents` at the clock reading `clock`.
    pub fn new(clock: &ClockState, contents: LogContents) -> (e: Self)
        ensures
            e == (LogEntry { timestamp: LogTimestamp::of(*clock), contents }),
    {
        LogEntry { timestamp: LogTimestamp::from(clock), contents }
    }

    /// The encoded entry: the timestamp, then the contents.
    pub open spec fn bytes(self) -> Seq<u8> {
        self.timestamp.bytes() + self.contents.bytes()
    }

    /// Number of bytes of the encoded entry.
    pub fn encoded_len(&self) -> (n: usize)
        ensures
            n == self.bytes().len(),
            n == 7 || n == 27,
    {
        match self.contents {
            LogContents::Measurement(_) => 27,
            LogContents::Alarm => 7,
        }
    }

    /// Writes the encoded entry into `buf` from `start` on and returns its
    /// length. No other byte of `buf` changes. Where the entry does not fit,
    /// nothing is written.
    pub fn encode(&self, buf: &mut [u8; 1024], start: usize) -> (r: Result<usize, StorageError>)
        requires
            start <= 1024,
        ensures
            start + self.bytes().len() <= 1024 ==> r == Ok::<usize, StorageError>(
                self.bytes().len() as usize,
            ) && final(buf)@ == overwrite(old(buf)@, start as int, self.bytes()),
            start + self.bytes().len() > 1024 ==> r == Err::<usize, StorageError>(
                StorageError::PostcardError(PostcardError::SerializeBufferFull),
            ) && final(buf)@ == old(buf)@,
    {
        let len = self.encoded_len();
        if len > BUFFER_SIZE - start {
            return Err(StorageError::PostcardError(PostcardError::SerializeBufferFull));
        }
        let ghost before = buf@;
        encode_timestamp(&self.timestamp, buf, start);
        proof {
            lemma_overwrite_append(
                before,
                start as int,
                self.timestamp.bytes(),
                self.contents.bytes(),
            );
        }
        match self.contents {
            LogContents::Alarm => {
                buf[start + 6] = 1;
                assert(buf@ =~= overwrite(
                    overwrite(before, start as int, self.timestamp.bytes()),
                    start + 6,
                    self.contents.bytes(),
                ));
            },
            LogContents::Measurement(m) => {
                let ghost stamped = buf@;
                buf[start + 6] = 0;
                assert(buf@ =~= overwrite(stamped, start + 6, seq![0u8]));
                encode_measurement(&m, buf, start + 7);
                proof {
                    lemma_overwrite_append(stamped, start + 6, seq![0u8], m.bytes());
                }
            },
        }
        Ok(len)
    }
}

/// Writes the six bytes of a timestamp into `buf` from `start` on.
fn encode_timestamp(t: &LogTimestamp, buf: &mut [u8; 1024], start: usize)
    requires
        start + 6 <= 1024,
    ensures
        final(buf)@ == overwrite(old(buf)@, start as int, t.bytes()),
{
    buf[start] = t.hour;
    buf[start + 1] = t.minute;
    buf[start + 2] = t.second;
    buf[start + 3] = t.day;
    buf[start + 4] = t.month;
    buf[start + 5] = t.year;
    assert(buf@ =~= overwrite(old(buf)@, start as int, t.bytes()));
}

/// Writes a value of 32 bits into `buf` from `start` on, where it fits.
fn encode_u32(value: u32, buf: &mut [u8; 1024], start: usize)
    requires
        start + 4 <= 1024,
    ensures
        final(buf)@ == overwrite(old(buf)@, start as int, le_bytes(value)),
{
    let written = postcard_to_slice_u32(value, buf, start);
    assert(written is Ok);
}

/// Writes the five values of a sample into `buf` from `start` on.
fn encode_measurement(m: &Measurement, buf: &mut [u8; 1024], start: usize)
    requires
        start + 20 <= 1024,
    ensures
        final(buf)@ == overwrite(old(buf)@, start as int, m.bytes()),
{
    let ghost s0 = buf@;
    encode_u32(m.acc_mean.0, buf, start);
    encode_u32(m.acc_mean.1, buf, start + 4);
    proof {
        lemma_overwrite_append(s0, start as int, le_bytes(m.acc_mean.0), le_bytes(m.acc_mean.1));
    }
    let ghost xy = le_bytes(m.acc_mean.0) + le_bytes(m.acc_mean.1);
    encode_u32(m.acc_mean.2, buf, start + 8);
    proof {
        lemma_overwrite_append(s0, start as int, xy, le_bytes(m.acc_mean.2));
    }
    let ghost xyz = xy + le_bytes(m.acc_mean.2);
    encode_u32(m.temp_mean, buf, start + 12);
    proof {
        lemma_overwrite_append(s0, start as int, xyz, le_bytes(m.temp_mean));
    }
    let ghost xyzt = xyz + le_bytes(m.temp_mean);
    encode_u32(m.gyro_mag_max, buf, start + 16);
    proof {
        lemma_overwrite_append(s0, start as int, xyzt, le_bytes(m.gyro_mag_max));
    }
}

/// What the logger is waiting for.
#[derive(Debug, Clone, Copy, PartialEq, Eq, Structural)]
pub enum Phase {
    /// Nothing is outstanding.
    Idle,
    /// A log block was handed out and its write has not been reported.
    Writing,
    /// The settings block was handed out and its write has not been reported.
    Persisting,
}

/// The storage operation that the caller has to carry out next.
#[derive(Debug, Clone, Copy, PartialEq, Eq)]
pub enum StorageRequest {
    /// Nothing is to be done: the operation is complete.
    Idle,
    /// Write `data` as one log block at `address`, then call `block_written`.
    /// A failed write ends the operation with the storage error.
    WriteBlock { address: u32, data: [u8; 512] },
    /// Write `data`, the encoded settings, at `address`, then call
    /// `settings_stored`.
    StoreSettings { address: u32, data: [u8; 512] },
}

/// A storage request with its block as a sequence of bytes.
pub enum RequestView {
    Idle,
    WriteBlock { address: u32, data: Seq<u8> },
    StoreSettings { address: u32, data: Seq<u8> },
}

impl View for StorageRequest {
    type V = RequestView;

    open spec fn view(&self) -> RequestView {
        match *self {
            StorageRequest::Idle => RequestView::Idle,
            StorageRequest::WriteBlock { address, data } => RequestView::WriteBlock {
                address,
                data: data@,
            },
            StorageRequest::StoreSettings { address, data } => RequestView::StoreSettings {
                address,
                data: data@,
            },
        }
    }
}

/// `n` zero bytes.
pub open spec fn zeros(n: nat) -> Seq<u8> {
    Seq::new(n, |i: int| 0u8)
}

/// The block that leaves the buffer first: its first 512 bytes, or all of it
/// followed by zeros where it holds fewer.
pub open spec fn first_block(bytes: Seq<u8>) -> Seq<u8> {
    Seq::new(
        SD_BLOCK_SIZE as nat,
        |i: int|
            if i < bytes.len() {
                bytes[i]
            } else {
                0u8
            },
    )
}

/// What stays buffered once the first block has left.
pub open spec fn after_first_block(bytes: Seq<u8>) -> Seq<u8> {
    if bytes.len() >= SD_BLOCK_SIZE {
        bytes.subrange(SD_BLOCK_SIZE as int, bytes.len() as int)
    } else {
        Seq::empty()
    }
}

/// Whether a block is due: a full one while appending, any buffered byte
/// while flushing.
pub open spec fn block_due(bytes: Seq<u8>, flushing: bool) -> bool {
    if flushing {
        bytes.len() > 0
    } else {
        bytes.len() >= SD_BLOCK_SIZE
    }
}

/// The logger as its contracts speak of it.
pub struct LoggerView {
    /// The encoded entries that have not reached storage, oldest first.
    pub bytes: Seq<u8>,
    /// What the logger is waiting for.
    pub phase: Phase,
    /// Whether the operation in progress is a flush.
    pub flushing: bool,
    /// Number of ticks after which a flush is due, or 0 for none.
    pub timeout: u32,
    /// Ticks counted since the last flush that a tick started.
    pub elapsed: u32,
}

impl LoggerView {
    /// The logger after an entry of the given bytes was buffered.
    pub open spec fn appended(self, entry: Seq<u8>) -> LoggerView {
        let bytes = self.bytes + entry;
        LoggerView {
            bytes,
            phase: if bytes.len() >= SD_BLOCK_SIZE {
                Phase::Writing
            } else {
                Phase::Idle
            },
            flushing: false,
            ..self
        }
    }

    /// The logger after a flush was asked for.
    pub open spec fn flushed(self) -> LoggerView {
        LoggerView {
            phase: if self.bytes.len() > 0 {
                Phase::Writing
            } else {
                Phase::Idle
            },
            flushing: self.bytes.len() > 0,
            ..self
        }
    }

    /// The logger after the write of its first block was reported.
    pub open spec fn written(self) -> LoggerView {
        if self.phase is Writing {
            LoggerView { bytes: after_first_block(self.bytes), phase: Phase::Persisting, ..self }
        } else {
            self
        }
    }

    /// The logger after the write of the settings block was reported.
    pub open spec fn stored(self) -> LoggerView {
        if self.phase is Persisting {
            if block_due(self.bytes, self.flushing) {
                LoggerView { phase: Phase::Writing, ..self }
            } else {
                LoggerView { phase: Phase::Idle, flushing: false, ..self }
            }
        } else {
            self
        }
    }

    /// The logger after one tick of its flush timer: the flush that falls
    /// due is started and the count begins again.
    pub open spec fn ticked(self) -> LoggerView {
        if self.timeout == 0 {
            self
        } else if self.elapsed + 1 >= self.timeout {
            LoggerView { elapsed: 0, ..self.flushed() }
        } else {
            LoggerView { elapsed: (self.elapsed + 1) as u32, ..self }
        }
    }

    /// The request that is outstanding in this state, under the given
    /// settings.
    pub open spec fn request(self, settings: Settings) -> RequestView {
        match self.phase {
            Phase::Idle => RequestView::Idle,
            Phase::Writing => RequestView::WriteBlock {
                address: settings.logger_block,
                data: first_block(self.bytes),
            },
            Phase::Persisting => RequestView::StoreSettings {
                address: SDIO_BLOCK_SETTINGS,
                data: settings.block_bytes(),
            },
        }
    }
}

/// Block alignment: when an append brings the buffered bytes to exactly one
/// block, that block is handed out as it stands, at the address that the
/// settings name; once its write is reported the buffer is empty and the
/// settings block is due; and once that is stored nothing more is asked for,
/// so the append costs one block write.
pub proof fn lemma_block_alignment(before: LoggerView, entry: Seq<u8>, settings: Settings)
    requires
        before.bytes.len() + entry.len() == SD_BLOCK_SIZE,
        settings.logger_block < u32::MAX,
    ensures
        ({
            let appended = before.appended(entry);
            let written = appended.written();
            let stored = written.stored();
            let next = Settings { logger_block: (settings.logger_block + 1) as u32 };
            &&& appended.request(settings) == RequestView::WriteBlock {
                address: settings.logger_block,
                data: before.bytes + entry,
            }
            &&& written.bytes.len() == 0
            &&& written.request(next) == RequestView::StoreSettings {
                address: SDIO_BLOCK_SETTINGS,
                data: next.block_bytes(),
            }
            &&& stored.bytes.len() == 0
            &&& stored.request(next) == RequestView::Idle
        }),
{
    assert(first_block(before.bytes + entry) =~= before.bytes + entry);
}

/// Flush padding: a flush of fewer bytes than one block hands out one block,
/// the buffered bytes followed by zeros; once its write is reported the
/// buffer is empty, and once the settings are stored nothing more is asked
/// for.
pub proof fn lemma_flush_padding(before: LoggerView, settings: Settings)
    requires
        0 < before.bytes.len() < SD_BLOCK_SIZE,
        settings.logger_block < u32::MAX,
    ensures
        ({
            let flushed = before.flushed();
            let written = flushed.written();
            let stored = written.stored();
            let next = Settings { logger_block: (settings.logger_block + 1) as u32 };
            &&& flushed.request(settings) == RequestView::WriteBlock {
                address: settings.logger_block,
                data: before.bytes + zeros((SD_BLOCK_SIZE - before.bytes.len()) as nat),
            }
            &&& written.bytes.len() == 0
            &&& written.request(next) == RequestView::StoreSettings {
                address: SDIO_BLOCK_SETTINGS,
                data: next.block_bytes(),
            }
            &&& stored.request(next) == RequestView::Idle
        }),
{
    assert(first_block(before.bytes) =~= before.bytes + zeros(
        (SD_BLOCK_SIZE - before.bytes.len()) as nat,
    ));
}

/// A flush of an empty buffer asks for nothing and leaves the buffer empty.
pub proof fn lemma_flush_empty(before: LoggerView, settings: Settings)
    requires
        before.bytes.len() == 0,
    ensures
        before.flushed().request(settings) == RequestView::Idle,
        before.flushed().bytes == before.bytes,
{
}

/// Crash safety of the write cursor: in every state in which a log block is
/// outstanding, the report of its write is answered with the settings block,
/// and the cursor that this block persists lies one beyond the address just
/// written. No log block is outstanding again before the settings are
/// reported stored.
pub proof fn lemma_settings_follow_block(state: LoggerView, settings: Settings)
    requires
        state.phase is Writing,
        settings.logger_block < u32::MAX,
    ensures
        ({
            let next = Settings { logger_block: (settings.logger_block + 1) as u32 };
            &&& state.request(settings) matches RequestView::WriteBlock { address, .. }
                && address == settings.logger_block
            &&& state.written().phase is Persisting
            &&& state.written().request(next) matches RequestView::StoreSettings { address, data }
                && address == SDIO_BLOCK_SETTINGS && le_value(data) == settings.logger_block + 1
        }),
{
    let next = Settings { logger_block: (settings.logger_block + 1) as u32 };
    lemma_settings_round_trip(next);
}

/// Buffer of encoded log entries in front of block storage.
pub struct Logger {
    buffer: [u8; 1024],
    current_idx: usize,
    phase: Phase,
    flushing: bool,
    timeout_ticks: u32,
    timeout_counter: u32,
}

impl View for Logger {
    type V = LoggerView;

    closed spec fn view(&self) -> LoggerView {
        LoggerView {
            bytes: self.buffer@.subrange(0, self.current_idx as int),
            phase: self.phase,
            flushing: self.flushing,
            timeout: self.timeout_ticks,
            elapsed: self.timeout_counter,
        }
    }
}

impl Logger {
    /// The whole buffer, used or not.
    pub closed spec fn raw(self) -> Seq<u8> {
        self.buffer@
    }

    /// Well-formedness: the cursor lies within the buffer, a block is
    /// outstanding only while bytes are buffered, and a partial block that is
    /// outstanding has zeros behind it.
    pub closed spec fn wf(self) -> bool {
        &&& self.current_idx <= BUFFER_SIZE
        &&& self.timeout_counter <= self.timeout_ticks
        &&& self.timeout_ticks > 0 ==> self.timeout_counter < self.timeout_ticks
        &&& self.phase is Writing ==> self.current_idx > 0
        &&& self.phase is Writing && self.current_idx < SD_BLOCK_SIZE ==> forall|i: int|
            self.current_idx <= i < BUFFER_SIZE ==> self.buffer@[i] == 0
    }

    /// A well-formed logger buffers no more than the buffer holds, and waits
    /// for a block write only while it buffers something.
    pub proof fn lemma_wf(self)
        requires
            self.wf(),
        ensures
            self@.bytes.len() <= BUFFER_SIZE,
            self@.phase is Writing ==> self@.bytes.len() > 0,
            self.raw().len() == BUFFER_SIZE,
            self@.bytes == self.raw().subrange(0, self@.bytes.len() as int),
    {
    }

    /// Creates an empty logger over a zeroed buffer, without a flush timer.
    pub fn new() -> (l: Self)
        ensures
            l.wf(),
            l@ == (LoggerView {
                bytes: Seq::empty(),
                phase: Phase::Idle,
                flushing: false,
                timeout: 0,
                elapsed: 0,
            }),
            l.raw() == zeros(BUFFER_SIZE as nat),
    {
        Logger::with_timeout(0)
    }

    /// Creates an empty logger over a zeroed buffer whose `tick` starts a
    /// flush every `timeout` ticks, or never where `timeout` is 0.
    pub fn with_timeout(timeout: u32) -> (l: Self)
        ensures
            l.wf(),
            l@ == (LoggerView {
                bytes: Seq::empty(),
                phase: Phase::Idle,
                flushing: false,
                timeout,
                elapsed: 0,
            }),
            l.raw() == zeros(BUFFER_SIZE as nat),
    {
        let l = Logger {
            buffer: [0u8;1024],
            current_idx: 0,
            phase: Phase::Idle,
            flushing: false,
            timeout_ticks: timeout,
            timeout_counter: 0,
        };
        assert(l@.bytes =~= Seq::<u8>::empty());
        assert(l.raw() =~= zeros(BUFFER_SIZE as nat));
        l
    }

    /// Counts one tick of the flush timer. At the tick on which the count
    /// reaches the timeout, the count begins again and a flush is started.
    pub fn tick(&mut self, settings: &Settings) -> (r: StorageRequest)
        requires
            old(self).wf(),
        ensures
            final(self).wf(),
            final(self)@ == old(self)@.ticked(),
            old(self)@.timeout > 0 && old(self)@.elapsed + 1 >= old(self)@.timeout ==> r@
                == final(self)@.request(*settings),
            !(old(self)@.timeout > 0 && old(self)@.elapsed + 1 >= old(self)@.timeout) ==> r@
                == RequestView::Idle && final(self).raw() == old(self).raw(),
    {
        if self.timeout_ticks == 0 {
            return StorageRequest::Idle;
        }
        self.timeout_counter += 1;
        if self.timeout_counter >= self.timeout_ticks {
            self.timeout_counter = 0;
            self.flush(settings)
        } else {
            assert(self@.bytes =~= old(self)@.bytes);
            StorageRequest::Idle
        }
    }

    /// Number of buffered bytes.
    pub fn buffered_len(&self) -> (n: usize)
        requires
            self.wf(),
        ensures
            n == self@.bytes.len(),
    {
        self.current_idx
    }

    /// What the logger is waiting for.
    pub fn phase(&self) -> (p: Phase)
        ensures
            p == self@.phase,
    {
        self.phase
    }

    /// Hands out the first block of the buffer, padded with zeros where it is
    /// not full, or nothing where the buffer is empty.
    fn write_first_block(&mut self, settings: &Settings) -> (r: StorageRequest)
        requires
            old(self).wf(),
        ensures
            final(self).wf(),
            final(self)@.bytes == old(self)@.bytes,
            final(self)@.flushing == old(self)@.flushing,
            final(self)@.timeout == old(self)@.timeout,
            final(self)@.elapsed == old(self)@.elapsed,
            final(self)@.phase == if old(self)@.bytes.len() > 0 {
                Phase::Writing
            } else {
                Phase::Idle
            },
            r@ == final(self)@.request(*settings),
    {
        if self.current_idx == 0 {
            self.phase = Phase::Idle;
            return StorageRequest::Idle;
        }
        let ghost before = self.buffer@;
        if self.current_idx < SD_BLOCK_SIZE {
            let mut i: usize = self.current_idx;
            while i < BUFFER_SIZE
                invariant
                    self.current_idx <= i <= BUFFER_SIZE,
                    before.len() == BUFFER_SIZE,
                    self.current_idx == old(self).current_idx,
                    self.flushing == old(self).flushing,
                    self.timeout_ticks == old(self).timeout_ticks,
                    self.timeout_counter == old(self).timeout_counter,
                    forall|j: int| 0 <= j < self.current_idx ==> self.buffer@[j] == before[j],
                    forall|j: int| self.current_idx <= j < i ==> self.buffer@[j] == 0,
                decreases BUFFER_SIZE - i,
            {
                self.buffer[i] = 0;
                i += 1;
            }
        }
        let mut data = [0u8;512];
        let mut k: usize = 0;
        while k < SD_BLOCK_SIZE
            invariant
                k <= SD_BLOCK_SIZE,
                0 < self.current_idx <= BUFFER_SIZE,
                forall|j: int|
                    0 <= j < k ==> data@[j] == if j < self.current_idx {
                        self.buffer@[j]
                    } else {
                        0u8
                    },
            decreases SD_BLOCK_SIZE - k,
        {
            data[k] = if k < self.current_idx {
                self.buffer[k]
            } else {
                0
            };
            k += 1;
        }
        self.phase = Phase::Writing;
        assert(self@.bytes =~= old(self)@.bytes);
        assert(data@ =~= first_block(self@.bytes));
        StorageRequest::WriteBlock { address: settings.logger_block, data }
    }

    /// Encodes the entry that records `contents` at the reading `clock` and
    /// buffers it. Where the buffer then holds a full block, that block is
    /// handed out for writing at the address that `settings` names. An entry
    /// that does not fit the rest of the buffer is refused and changes
    /// nothing.
    pub fn append(&mut self, clock: &ClockState, contents: LogContents, settings: &Settings) -> (r:
        Result<StorageRequest, StorageError>)
        requires
            old(self).wf(),
        ensures
            final(self).wf(),
            ({
                let entry = (LogEntry { timestamp: LogTimestamp::of(*clock), contents }).bytes();
                if old(self)@.bytes.len() + entry.len() <= BUFFER_SIZE {
                    &&& final(self)@ == old(self)@.appended(entry)
                    &&& r matches Ok(req) && req@ == final(self)@.request(*settings)
                } else {
                    &&& final(self)@ == old(self)@
                    &&& final(self).raw() == old(self).raw()
                    &&& r matches Err(e) && e == StorageError::PostcardError(
                        PostcardError::SerializeBufferFull,
                    )
                }
            }),
    {
        let entry = LogEntry::new(clock, contents);
        match entry.encode(&mut self.buffer, self.current_idx) {
            Err(e) => Err(e),
            Ok(n) => {
                self.current_idx += n;
                self.flushing = false;
                assert(self.buffer@.subrange(0, self.current_idx as int) =~= old(self)@.bytes
                    + entry.bytes());
                if self.current_idx >= SD_BLOCK_SIZE {
                    self.phase = Phase::Idle;
                    Ok(self.write_first_block(settings))
                } else {
                    self.phase = Phase::Idle;
                    Ok(StorageRequest::Idle)
                }
            },
        }
    }

    /// Starts writing out everything that is buffered: hands out the first
    /// block, padded with zeros where it is not full. Does nothing where the
    /// buffer is empty.
    pub fn flush(&mut self, settings: &Settings) -> (r: StorageRequest)
        requires
            old(self).wf(),
        ensures
            final(self).wf(),
            final(self)@ == old(self)@.flushed(),
            r@ == final(self)@.request(*settings),
    {
        self.flushing = self.current_idx > 0;
        self.phase = Phase::Idle;
        self.write_first_block(settings)
    }

    /// Reports that the block handed out last has reached storage. The write
    /// cursor in `settings` moves on by one block, the block leaves the
    /// buffer, and the settings block is handed out so that the new cursor is
    /// persisted before anything else is written. After a partial block the
    /// whole buffer is zero. Without an outstanding block nothing changes.
    pub fn block_written(&mut self, settings: &mut Settings) -> (r: StorageRequest)
        requires
            old(self).wf(),
            old(settings).logger_block < u32::MAX,
        ensures
            final(self).wf(),
            final(self)@ == old(self)@.written(),
            old(self)@.phase is Writing ==> final(settings).logger_block == old(
                settings,
            ).logger_block + 1,
            old(self)@.phase is Writing ==> r@ == final(self)@.request(*final(settings)),
            !(old(self)@.phase is Writing) ==> *final(settings) == *old(settings) && r@
                == RequestView::Idle && final(self).raw() == old(self).raw(),
            old(self)@.phase is Writing && old(self)@.bytes.len() < SD_BLOCK_SIZE
                ==> final(self).raw() == zeros(BUFFER_SIZE as nat),
    {
        match self.phase {
            Phase::Writing => {},
            _ => {
                return StorageRequest::Idle;
            },
        }
        settings.logger_block += 1;
        let ghost before = self.buffer@;
        if self.current_idx < SD_BLOCK_SIZE {
            let mut i: usize = 0;
            while i < self.current_idx
                invariant
                    i <= self.current_idx < SD_BLOCK_SIZE,
                    self.flushing == old(self).flushing,
                    self.timeout_ticks == old(self).timeout_ticks,
                    self.timeout_counter == old(self).timeout_counter,
                    forall|j: int| 0 <= j < i ==> self.buffer@[j] == 0,
                    forall|j: int| self.current_idx <= j < BUFFER_SIZE ==> self.buffer@[j] == 0,
                decreases self.current_idx - i,
            {
                self.buffer[i] = 0;
                i += 1;
            }
            self.current_idx = 0;
            assert(self.buffer@ =~= zeros(BUFFER_SIZE as nat));
        } else {
            let rest = self.current_idx - SD_BLOCK_SIZE;
            let mut i: usize = 0;
            while i < rest
                invariant
                    i <= rest <= SD_BLOCK_SIZE,
                    before.len() == BUFFER_SIZE,
                    self.flushing == old(self).flushing,
                    self.timeout_ticks == old(self).timeout_ticks,
                    self.timeout_counter == old(self).timeout_counter,
                    forall|j: int| 0 <= j < i ==> self.buffer@[j] == before[j + SD_BLOCK_SIZE],
                    forall|j: int| i <= j < BUFFER_SIZE ==> self.buffer@[j] == before[j],
                decreases rest - i,
            {
                self.buffer[i] = self.buffer[i + SD_BLOCK_SIZE];
                i += 1;
            }
            self.current_idx = rest;
        }
        self.phase = Phase::Persisting;
        assert(self@.bytes =~= after_first_block(old(self)@.bytes));
        StorageRequest::StoreSettings { address: SDIO_BLOCK_SETTINGS, data: settings.to_block() }
    }

    /// Reports that the settings block handed out last has reached storage.
    /// Where another block is due, it is handed out; otherwise the operation
    /// is complete. Without an outstanding settings block nothing changes.
    pub fn settings_stored(&mut self, settings: &Settings) -> (r: StorageRequest)
        requires
            old(self).wf(),
        ensures
            final(self).wf(),
            final(self)@ == old(self)@.stored(),
            old(self)@.phase is Persisting ==> r@ == final(self)@.request(*settings),
            !(old(self)@.phase is Persisting) ==> r@ == RequestView::Idle && final(self).raw()
                == old(self).raw(),
    {
        match self.phase {
            Phase::Persisting => {},
            _ => {
                return StorageRequest::Idle;
            },
        }
        let due = if self.flushing {
            self.current_idx > 0
        } else {
            self.current_idx >= SD_BLOCK_SIZE
        };
        if due {
            self.phase = Phase::Idle;
            self.write_first_block(settings)
        } else {
            self.phase = Phase::Idle;
            self.flushing = false;
            StorageRequest::Idle
        }
    }
}

} // verus!
