//! Block-storage records: the persisted settings block, the bounded retry
//! of card initialisation, and the errors that storage operations report.

use crate::codec::le_bytes;
use crate::codec::le_value;
use crate::codec::lemma_le_round_trip;
use crate::codec::postcard_from_bytes_u32;
use crate::codec::postcard_to_slice_u32;
use vstd::prelude::*;

verus! {

/// Size in bytes of one storage block, the unit of every read and write.
pub const SD_BLOCK_SIZE: usize = 512;

/// Address of the block that holds the persisted settings.
pub const SDIO_BLOCK_SETTINGS: u32 = 1;

/// Pause between two attempts to initialise the card, in milliseconds.
pub const SDIO_RETRY_INTERVAL_MS: u8 = 100;

/// First block of the logging region, used until settings say otherwise.
pub const LOGGER_BLOCK_START_IDX: u32 = 10;

/// What the card interface reported for a failed command.
#[derive(Debug, Clone, Copy, PartialEq, Eq, Structural)]
pub enum SdioError {
    Timeout,
    SoftwareTimeout,
    Crc,
    UnsupportedCardVersion,
    UnsupportedCardType,
    UnsupportedVoltage,
    DataCrcFail,
    RxOverFlow,
    TxUnderErr,
    NoCard,
}

/// Why a record could not be encoded or decoded.
#[derive(Debug, Clone, Copy, PartialEq, Eq, Structural)]
pub enum PostcardError {
    /// The destination has too little room left for the record.
    SerializeBufferFull,
    /// The source ended before the record was complete.
    DeserializeUnexpectedEnd,
}

/// Failure of a storage operation.
#[derive(Debug, Clone, Copy, PartialEq, Eq, Structural)]
pub enum StorageError {
    /// The card did not answer within the allowed number of attempts.
    InitTimeout,
    /// The card interface reported a failure.
    SdioError(SdioError),
    /// A record could not be encoded or decoded.
    PostcardError(PostcardError),
}

/// The persisted record: where the log resumes writing.
#[derive(Debug, Clone, Copy, PartialEq, Eq, Structural)]
pub struct Settings {
    /// Address of the next block that the logger writes.
    pub logger_block: u32,
}

impl Default for Settings {
    /// Settings of a card that holds none: logging starts at the first block
    /// of the logging region.
    fn default() -> (s: Self)
        ensures
            s.logger_block == LOGGER_BLOCK_START_IDX,
    {
        Settings { logger_block: LOGGER_BLOCK_START_IDX }
    }
}

impl Settings {
    /// The contents of the settings block: the encoded record, then zeros.
    pub open spec fn block_bytes(self) -> Seq<u8> {
        le_bytes(self.logger_block) + Seq::new((SD_BLOCK_SIZE - 4) as nat, |i: int| 0u8)
    }

    /// Encodes the settings into a block for the settings address.
    pub fn to_block(&self) -> (block: [u8; 512])
        ensures
            block@ == self.block_bytes(),
    {
        let mut block = [0u8;512];
        let written = postcard_to_slice_u32(self.logger_block, &mut block, 0);
        assert(written is Ok);
        assert(block@ =~= self.block_bytes());
        block
    }

    /// Decodes the settings from what was read at the settings address.
    /// Bytes after the record are ignored; fewer bytes than the record has
    /// are refused.
    pub fn from_block(block: &[u8]) -> (r: Result<Settings, StorageError>)
        ensures
            block@.len() >= 4 ==> r == Ok::<Settings, StorageError>(
                Settings { logger_block: le_value(block@) as u32 },
            ),
            block@.len() < 4 ==> r == Err::<Settings, StorageError>(
                StorageError::PostcardError(PostcardError::DeserializeUnexpectedEnd),
            ),
    {
        match postcard_from_bytes_u32(block) {
            Ok(v) => Ok(Settings { logger_block: v }),
            Err(_) => Err(StorageError::PostcardError(PostcardError::DeserializeUnexpectedEnd)),
        }
    }
}

/// Encoding settings into a block and decoding that block gives them back.
pub proof fn lemma_settings_round_trip(settings: Settings)
    ensures
        settings.block_bytes().len() == SD_BLOCK_SIZE,
        le_value(settings.block_bytes()) == settings.logger_block,
{
    lemma_le_round_trip(settings.logger_block);
    let b = settings.block_bytes();
    let l = le_bytes(settings.logger_block);
    assert(b[0] == l[0] && b[1] == l[1] && b[2] == l[2] && b[3] == l[3]);
}

/// What the caller has to do next to initialise the card.
#[derive(Debug, Clone, Copy, PartialEq, Eq, Structural)]
pub enum InitStep {
    /// Try to initialise the card, and report the outcome with `attempted`.
    Attempt,
    /// Pause for this many milliseconds, then ask `next` again.
    Wait(u8),
    /// The card is ready.
    Ready,
    /// Initialisation has failed for good.
    Failed(StorageError),
}

/// The bounded retry of card initialisation: how many attempts are left.
#[derive(Debug, Clone, Copy, PartialEq, Eq, Structural)]
pub struct InitRetry {
    pub tries_left: u32,
}

impl InitRetry {
    /// The step that an outcome of an attempt leads to: a card that did not
    /// answer in time is tried again after a pause, any other failure is
    /// final.
    pub open spec fn step_after(outcome: Result<(), SdioError>) -> InitStep {
        match outcome {
            Ok(()) => InitStep::Ready,
            Err(SdioError::Timeout) => InitStep::Wait(SDIO_RETRY_INTERVAL_MS),
            Err(e) => InitStep::Failed(StorageError::SdioError(e)),
        }
    }

    /// Allows one attempt for each full retry interval within `timeout`
    /// milliseconds.
    pub fn new(timeout: u32) -> (r: Self)
        ensures
            r.tries_left == timeout / (SDIO_RETRY_INTERVAL_MS as u32),
    {
        InitRetry { tries_left: timeout / (SDIO_RETRY_INTERVAL_MS as u32) }
    }

    /// The next step: an attempt while one is left, else the failure by
    /// timeout.
    pub fn next(&mut self) -> (step: InitStep)
        ensures
            old(self).tries_left > 0 ==> step == InitStep::Attempt,
            old(self).tries_left > 0 ==> final(self).tries_left == old(self).tries_left - 1,
            old(self).tries_left == 0 ==> step == InitStep::Failed(StorageError::InitTimeout)
                && final(self).tries_left == 0,
    {
        if self.tries_left == 0 {
            InitStep::Failed(StorageError::InitTimeout)
        } else {
            self.tries_left -= 1;
            InitStep::Attempt
        }
    }

    /// The step to which the outcome of an attempt leads.
    pub fn attempted(&self, outcome: Result<(), SdioError>) -> (step: InitStep)
        ensures
            step == Self::step_after(outcome),
    {
        match outcome {
            Ok(()) => InitStep::Ready,
            Err(SdioError::Timeout) => InitStep::Wait(SDIO_RETRY_INTERVAL_MS),
            Err(e) => InitStep::Failed(StorageError::SdioError(e)),
        }
    }
}

} // verus!
