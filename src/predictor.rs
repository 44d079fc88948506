//! Predictive reconstruction of 16-bit samples from decoded values, with
//! saturating arithmetic throughout.
use vstd::prelude::*;
use crate::config::Compression;

verus! {

/// Clamps an integer to the signed 16-bit range.
pub open spec fn sat16(x: int) -> int {
    if x > 32767 {
        32767
    } else if x < -32768 {
        -32768
    } else {
        x
    }
}

/// The next reconstructed sample, from the raw byte `b`, its decoded value
/// `d` and the last three reconstructed samples `h1` (newest) to `h3`.
pub open spec fn next_sample(comp: Compression, b: u8, d: int, h1: int, h2: int, h3: int) -> int {
    match comp {
        Compression::Uncompressed => sat16(d * 256),
        Compression::Order1 => sat16(h1 + d),
        Compression::Order2 => sat16(sat16(sat16(2 * h1) - h2) + d),
        Compression::Order3 => sat16(sat16(sat16(sat16(3 * h1) - sat16(3 * h2)) + h3) + d),
        Compression::NonlinearSquaredDelta => if b < 128 {
            sat16(h1 + b * b)
        } else {
            sat16(h1 - (b - 128) * (b - 128))
        },
        Compression::NonlinearToggleSign => {
            let base = if b % 2 == 0 {
                0
            } else {
                h1
            };
            if d < 0 {
                sat16(base + sat16(2 * (d * d)))
            } else {
                sat16(base - sat16(2 * (d * d)))
            }
        },
    }
}

/// Clamps a 64-bit value to the signed 16-bit range.
pub fn saturate(x: i64) -> (r: i16)
    ensures
        r == sat16(x as int),
{
    if x > 32767 {
        32767
    } else if x < -32768 {
        -32768
    } else {
        x as i16
    }
}

/// The reconstructor's state: the prediction mode and the last three
/// reconstructed samples, newest first.
pub struct Predictor {
    pub compression: Compression,
    pub h1: i16,
    pub h2: i16,
    pub h3: i16,
}

impl Predictor {
    /// A reconstructor with an all-zero history.
    pub fn new(compression: Compression) -> (r: Predictor)
        ensures
            r.compression == compression,
            r.h1 == 0 && r.h2 == 0 && r.h3 == 0,
    {
        Predictor { compression, h1: 0, h2: 0, h3: 0 }
    }

    /// Reconstructs the next sample from the raw byte `b` and its decoded
    /// value `d`, and pushes it onto the history.
    pub fn step(&mut self, b: u8, d: i16) -> (r: i16)
        ensures
            r == next_sample(old(self).compression, b, d as int, old(self).h1 as int,
                old(self).h2 as int, old(self).h3 as int),
            final(self).compression == old(self).compression,
            final(self).h1 == r,
            final(self).h2 == old(self).h1,
            final(self).h3 == old(self).h2,
    {
        let h1: i64 = self.h1 as i64;
        let h2: i64 = self.h2 as i64;
        let h3: i64 = self.h3 as i64;
        let dd: i64 = d as i64;
        let r: i16 = match self.compression {
            Compression::Uncompressed => saturate(dd * 256),
            Compression::Order1 => saturate(h1 + dd),
            Compression::Order2 => {
                let a: i16 = saturate(2 * h1);
                let a: i16 = saturate(a as i64 - h2);
                saturate(a as i64 + dd)
            },
            Compression::Order3 => {
                let a: i16 = saturate(3 * h1);
                let m: i16 = saturate(3 * h2);
                let a: i16 = saturate(a as i64 - m as i64);
                let a: i16 = saturate(a as i64 + h3);
                saturate(a as i64 + dd)
            },
            Compression::NonlinearSquaredDelta => {
                if b < 128 {
                    let e: i64 = b as i64;
                    assert(0 <= e * e <= 255 * 255) by (nonlinear_arith)
                        requires
                            0 <= e <= 255,
                    ;
                    saturate(h1 + e * e)
                } else {
                    let e: i64 = (b - 128) as i64;
                    assert(0 <= e * e <= 255 * 255) by (nonlinear_arith)
                        requires
                            0 <= e <= 255,
                    ;
                    saturate(h1 - e * e)
                }
            },
            Compression::NonlinearToggleSign => {
                let base: i64 = if b % 2 == 0 {
                    0
                } else {
                    h1
                };
                assert(0 <= dd * dd <= 32768 * 32768) by (nonlinear_arith)
                    requires
                        -32768 <= dd <= 32767,
                ;
                let sq: i16 = saturate(2 * (dd * dd));
                if dd < 0 {
                    saturate(base + sq as i64)
                } else {
                    saturate(base - sq as i64)
                }
            },
        };
        self.h3 = self.h2;
        self.h2 = self.h1;
        self.h1 = r;
        r
    }
}

} // verus!
