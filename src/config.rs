//! The decoding configuration and its window edits.
use vstd::prelude::*;

verus! {

/// The bit-level rule that maps one raw byte to a signed amplitude.
#[derive(Clone, Copy, Debug, PartialEq, Eq, Structural)]
pub enum Representation {
    SignedMagnitude,
    OnesComplement,
    TwosComplement,
    ExcessK,
    Custom,
}

/// Where the sign bit of a signed-magnitude byte sits.
#[derive(Clone, Copy, Debug, PartialEq, Eq, Structural)]
pub enum SignBit {
    Lsb,
    Msb,
}

/// The predictive reconstruction applied to the decoded values.
#[derive(Clone, Copy, Debug, PartialEq, Eq, Structural)]
pub enum Compression {
    /// No prediction: each value is scaled up to the 16-bit range.
    Uncompressed,
    /// First-order delta coding.
    Order1,
    /// Second-order linear prediction.
    Order2,
    /// Third-order linear prediction.
    Order3,
    /// Sign flag in the top bit, squared 7-bit magnitude as the step.
    NonlinearSquaredDelta,
    /// History reset on an even byte, then a doubled squared step.
    NonlinearToggleSign,
}

/// Everything that decides how a raw stream is decoded and which part of the
/// decoded buffer is shown and played.
#[derive(Clone, Copy, Debug, PartialEq, Eq, Structural)]
pub struct DecodeConfig {
    pub representation: Representation,
    /// Sign bit position for `SignedMagnitude`.
    pub sign_bit: SignBit,
    /// Subtracted after decoding, for `ExcessK` and `Custom`.
    pub bias: u8,
    /// Flip-fold threshold for `Custom`.
    pub flip: u8,
    /// Mirror-fold threshold for `Custom`.
    pub mirror: u8,
    pub compression: Compression,
    /// Index of the first raw byte that is decoded.
    pub start_offset: usize,
    /// Distance between two addressed raw bytes.
    pub stride: usize,
    /// First decoded sample of the window that is plotted and played.
    pub window_start: usize,
    /// End (exclusive) of the window that is plotted and played.
    pub window_end: usize,
}

impl DecodeConfig {
    /// The configuration invariant: a positive stride and an ordered window.
    pub open spec fn wf(self) -> bool {
        self.stride >= 1 && self.window_start <= self.window_end
    }

    /// Narrows the window by a quarter of its width at each end.
    pub fn zoom_in(&mut self)
        requires
            old(self).window_start <= old(self).window_end,
        ensures
            ({
                let w = old(self).window_end - old(self).window_start;
                &&& final(self).window_start == old(self).window_start + w / 4
                &&& final(self).window_end == old(self).window_end - w / 4
                &&& *final(self) == (DecodeConfig {
                    window_start: final(self).window_start,
                    window_end: final(self).window_end,
                    ..*old(self)
                })
            }),
            final(self).window_start <= final(self).window_end,
    {
        let amount = (self.window_end - self.window_start) / 4;
        self.window_start = self.window_start + amount;
        self.window_end = self.window_end - amount;
    }

    /// Widens the window by half its width at each end; the start stops at
    /// zero and the end at `usize::MAX`.
    pub fn zoom_out(&mut self)
        requires
            old(self).window_start <= old(self).window_end,
        ensures
            ({
                let s = old(self).window_start as int;
                let e = old(self).window_end as int;
                let a = (e - s) / 2;
                &&& final(self).window_start == if a <= s {
                    s - a
                } else {
                    0
                }
                &&& final(self).window_end == if e + a <= usize::MAX {
                    e + a
                } else {
                    usize::MAX as int
                }
                &&& *final(self) == (DecodeConfig {
                    window_start: final(self).window_start,
                    window_end: final(self).window_end,
                    ..*old(self)
                })
            }),
            final(self).window_start <= final(self).window_end,
    {
        let s = self.window_start;
        let e = self.window_end;
        let amount = (e - s) / 2;
        self.window_start = if amount <= s {
            s - amount
        } else {
            0
        };
        self.window_end = if amount <= usize::MAX - e {
            e + amount
        } else {
            usize::MAX
        };
    }

    /// Moves the window left by half its width, stopping at zero, and keeps
    /// its width.
    pub fn move_left(&mut self)
        requires
            old(self).window_start <= old(self).window_end,
        ensures
            ({
                let s = old(self).window_start as int;
                let e = old(self).window_end as int;
                let a = (e - s) / 2;
                let shift = if a <= s {
                    a
                } else {
                    s
                };
                &&& final(self).window_start == s - shift
                &&& final(self).window_end == e - shift
                &&& *final(self) == (DecodeConfig {
                    window_start: final(self).window_start,
                    window_end: final(self).window_end,
                    ..*old(self)
                })
            }),
            final(self).window_start <= final(self).window_end,
    {
        let s = self.window_start;
        let w = self.window_end - s;
        let amount = w / 2;
        let shift = if amount <= s {
            amount
        } else {
            s
        };
        self.window_start = s - shift;
        self.window_end = s - shift + w;
    }

    /// Moves the window right by half its width, stopping where its end
    /// reaches `usize::MAX`, and keeps its width.
    pub fn move_right(&mut self)
        requires
            old(self).window_start <= old(self).window_end,
        ensures
            ({
                let s = old(self).window_start as int;
                let e = old(self).window_end as int;
                let a = (e - s) / 2;
                let shift = if e + a <= usize::MAX {
                    a
                } else {
                    usize::MAX - e
                };
                &&& final(self).window_start == s + shift
                &&& final(self).window_end == e + shift
                &&& *final(self) == (DecodeConfig {
                    window_start: final(self).window_start,
                    window_end: final(self).window_end,
                    ..*old(self)
                })
            }),
            final(self).window_start <= final(self).window_end,
    {
        let s = self.window_start;
        let e = self.window_end;
        let amount = (e - s) / 2;
        let shift = if amount <= usize::MAX - e {
            amount
        } else {
            usize::MAX - e
        };
        self.window_start = s + shift;
        self.window_end = e + shift;
    }
}

/// Maps the numeric sign-bit code used on the command surface: 0 selects the
/// least significant bit, anything else the most significant one.
pub fn sign_bit_from_code(code: u8) -> (r: SignBit)
    ensures
        r == (if code == 0 { SignBit::Lsb } else { SignBit::Msb }),
{
    if code == 0 {
        SignBit::Lsb
    } else {
        SignBit::Msb
    }
}

impl Default for DecodeConfig {
    fn default() -> (r: DecodeConfig)
        ensures
            r.representation == Representation::TwosComplement,
            r.sign_bit == SignBit::Msb,
            r.bias == 0 && r.flip == 0 && r.mirror == 0,
            r.compression == Compression::Uncompressed,
            r.start_offset == 0,
            r.stride == 1,
            r.window_start == 0,
            r.window_end == 8192,
    {
        DecodeConfig {
            representation: Representation::TwosComplement,
            sign_bit: SignBit::Msb,
            bias: 0,
            flip: 0,
            mirror: 0,
            compression: Compression::Uncompressed,
            start_offset: 0,
            stride: 1,
            window_start: 0,
            window_end: 8192,
        }
    }
}

} // verus!
