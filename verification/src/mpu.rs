//! The motion sample as the logger records it, and the window of readings
//! from which the sensor driver makes one.

use crate::codec::le_bytes;
use vstd::prelude::*;

verus! {

/// Three single-precision values, one per axis, each held as its 32-bit
/// pattern.
#[derive(Debug, Clone, Copy, PartialEq, Eq, Structural)]
pub struct Vec3f(pub u32, pub u32, pub u32);

/// One windowed motion sample. Each value is an IEEE 754 single-precision
/// number, held as its 32-bit pattern.
#[derive(Debug, Clone, Copy, PartialEq, Eq, Structural)]
pub struct Measurement {
    /// Mean acceleration over the window, per axis.
    pub acc_mean: Vec3f,
    /// Mean temperature over the window.
    pub temp_mean: u32,
    /// Largest magnitude of rotation seen in the window.
    pub gyro_mag_max: u32,
}

impl Measurement {
    /// The encoded sample: five values of four bytes each.
    pub open spec fn bytes(self) -> Seq<u8> {
        le_bytes(self.acc_mean.0) + le_bytes(self.acc_mean.1) + le_bytes(self.acc_mean.2)
            + le_bytes(self.temp_mean) + le_bytes(self.gyro_mag_max)
    }
}

impl Default for Measurement {
    /// The sample of an empty window: every value is positive zero.
    fn default() -> (m: Self)
        ensures
            m == (Measurement { acc_mean: Vec3f(0, 0, 0), temp_mean: 0, gyro_mag_max: 0 }),
    {
        Measurement { acc_mean: Vec3f(0, 0, 0), temp_mean: 0, gyro_mag_max: 0 }
    }
}

/// The window over which samples of the sensor are averaged: how many
/// readings it takes, and how many were taken.
#[derive(Debug, Clone, Copy, PartialEq, Eq, Structural)]
pub struct MPU {
    pub count: u32,
    pub samples: u32,
}

impl MPU {
    /// Well-formedness: the window is not over-full and its count cannot
    /// run over.
    pub open spec fn wf(self) -> bool {
        self.count <= self.samples < u32::MAX
    }

    /// Creates an empty window that completes with reading `samples + 1`.
    pub fn new(samples: u32) -> (w: Self)
        requires
            samples < u32::MAX,
        ensures
            w.wf(),
            w == (MPU { count: 0, samples }),
    {
        MPU { count: 0, samples }
    }

    /// Counts one reading. With the reading that completes the window,
    /// returns the number of readings by which the sums are to be divided,
    /// and empties the window.
    pub fn tick(&mut self) -> (r: Option<u32>)
        requires
            old(self).wf(),
        ensures
            final(self).wf(),
            final(self).samples == old(self).samples,
            old(self).count < old(self).samples ==> r is None,
            old(self).count < old(self).samples ==> final(self).count == old(self).count + 1,
            old(self).count == old(self).samples ==> r == Some((old(self).samples + 1) as u32)
                && final(self).count == 0,
    {
        self.count += 1;
        if self.count > self.samples {
            let readings = self.count;
            self.count = 0;
            Some(readings)
        } else {
            None
        }
    }
}

} // verus!
