//! Control nucleus of a bedside clock and motion logger: the event queue
//! between interrupt handlers and the main loop, the decoder for the rotary
//! encoder and its push button, the panel and dialog state machine, the
//! differencing character display buffer, and the block-aligned logger.

pub mod clock;
pub mod codec;
pub mod control;
pub mod dialog;
pub mod display;
pub mod encoder;
pub mod event;
pub mod logger;
pub mod mpu;
pub mod panel;
pub mod player;
pub mod sdcard;
