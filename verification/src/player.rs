//! The tone generator's timer values: the prescaler that gives the timer
//! its base frequency, and the reload value that gives a tone its pitch.

use vstd::prelude::*;

verus! {

/// Frequency in hertz at which the prescaled timer counts.
pub const PSC_FREQ: u32 = 10000;

/// A tone: its frequency in hertz and its length in milliseconds.
#[derive(Debug, Clone, Copy, PartialEq, Eq, Structural)]
pub struct Tone {
    pub frequency: u32,
    pub duration_ms: u32,
}

/// The timer values of the tone generator.
pub struct Player {}

impl Player {
    /// The prescaler that brings a bus clock of `pclk` hertz down to the
    /// base frequency: one less than their ratio. `None` where the bus clock
    /// is slower than the base frequency or the prescaler does not fit the
    /// 16 bits of its register.
    pub fn prescaler(pclk: u32) -> (r: Option<u16>)
        ensures
            1 <= pclk / PSC_FREQ <= 65536 ==> r == Some((pclk / PSC_FREQ - 1) as u16),
            !(1 <= pclk / PSC_FREQ <= 65536) ==> r is None,
    {
        let ratio = pclk / PSC_FREQ;
        if ratio >= 1 && ratio <= 65536 {
            Some((ratio - 1) as u16)
        } else {
            None
        }
    }

    /// The reload value for a tone of `freq` hertz: the base frequency
    /// divided by it. `None` for a frequency of zero.
    pub fn set_frequency(freq: u32) -> (r: Option<u16>)
        ensures
            freq > 0 ==> r == Some((PSC_FREQ / freq) as u16),
            freq == 0 ==> r is None,
    {
        if freq == 0 {
            None
        } else {
            Some((PSC_FREQ / freq) as u16)
        }
    }

    /// The tones of the start-up melody, in the order in which they sound.
    pub fn play() -> (tones: [Tone; 3])
        ensures
            tones@ == seq![
                Tone { frequency: 440, duration_ms: 1000 },
                Tone { frequency: 1000, duration_ms: 100 },
                Tone { frequency: 2000, duration_ms: 1000 },
            ],
    {
        let tones = [
            Tone { frequency: 440, duration_ms: 1000 },
            Tone { frequency: 1000, duration_ms: 100 },
            Tone { frequency: 2000, duration_ms: 1000 },
        ];
        assert(tones@ =~= seq![
            Tone { frequency: 440, duration_ms: 1000 },
            Tone { frequency: 1000, duration_ms: 100 },
            Tone { frequency: 2000, duration_ms: 1000 },
        ]);
        tones
    }
}

} // verus!
