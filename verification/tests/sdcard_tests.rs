use bedside_clock::sdcard::PostcardError;
use bedside_clock::sdcard::Settings;
use bedside_clock::sdcard::StorageError;
use bedside_clock::sdcard::LOGGER_BLOCK_START_IDX;
use bedside_clock::sdcard::SDIO_BLOCK_SETTINGS;
use bedside_clock::sdcard::SD_BLOCK_SIZE;

#[test]
fn default_settings_start_past_the_settings_block() {
    let s = Settings::default();
    assert_eq!(s.logger_block, 10);
    assert_eq!(LOGGER_BLOCK_START_IDX, 10);
    assert!(s.logger_block > SDIO_BLOCK_SETTINGS);
    assert_eq!(SD_BLOCK_SIZE, 512);
}

#[test]
fn settings_block_is_the_cursor_then_zeros() {
    let block = Settings { logger_block: 0x0102_0304 }.to_block();
    assert_eq!(&block[..4], &[0x04, 0x03, 0x02, 0x01]);
    assert!(block[4..].iter().all(|b| *b == 0));
    assert_eq!(block.len(), 512);
}

#[test]
fn settings_block_agrees_with_postcard() {
    let mut buf = [0u8; 512];
    postcard::to_slice(&10u32, &mut buf).unwrap();
    assert_eq!(Settings::default().to_block(), buf);
}

#[test]
fn settings_round_trip() {
    for v in [0u32, 1, 10, 255, 256, 65535, 65536, 0x1234_5678, u32::MAX] {
        let block = Settings { logger_block: v }.to_block();
        assert_eq!(Settings::from_block(&block), Ok(Settings { logger_block: v }));
    }
}

#[test]
fn settings_ignore_what_follows_the_record() {
    let mut block = [0xffu8; 512];
    block[0] = 10;
    block[1] = 0;
    block[2] = 0;
    block[3] = 0;
    assert_eq!(Settings::from_block(&block), Ok(Settings { logger_block: 10 }));
    assert_eq!(Settings::from_block(&[1, 2, 3, 4]), Ok(Settings { logger_block: 0x0403_0201 }));
}

#[test]
fn short_settings_are_refused() {
    let err = Err(StorageError::PostcardError(PostcardError::DeserializeUnexpectedEnd));
    assert_eq!(Settings::from_block(&[]), err);
    assert_eq!(Settings::from_block(&[1, 2, 3]), err);
}
