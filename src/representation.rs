//! Mapping of one raw byte to a signed amplitude.
use vstd::prelude::*;
use crate::config::{DecodeConfig, Representation, SignBit};

verus! {

/// The byte read as a two's complement 8-bit integer.
pub open spec fn signed8(b: u8) -> int {
    if b < 128 {
        b as int
    } else {
        b as int - 256
    }
}

/// The byte after the `Custom` folds. The mirror fold leaves every byte as it
/// is; the flip fold maps a byte below `flip` to `flip - byte`.
pub open spec fn custom_fold(b: u8, flip: u8) -> int {
    if b < flip {
        flip - b
    } else {
        b as int
    }
}

/// The amplitude that a byte stands for under the configuration.
pub open spec fn decode_value(b: u8, c: DecodeConfig) -> int {
    match c.representation {
        Representation::TwosComplement => signed8(b),
        Representation::OnesComplement => if b < 128 {
            b as int
        } else {
            b - 255
        },
        Representation::SignedMagnitude => match c.sign_bit {
            SignBit::Msb => if b >= 128 {
                -(b % 128)
            } else {
                (b % 128) as int
            },
            SignBit::Lsb => if b % 2 == 1 {
                -(b / 2)
            } else {
                (b / 2) as int
            },
        },
        Representation::ExcessK => b - c.bias,
        Representation::Custom => signed8(custom_fold(b, c.flip) as u8) - c.bias,
    }
}

/// Every decoded amplitude lies in `[-383, 255]`.
pub open spec fn in_decoded_range(v: int) -> bool {
    -383 <= v <= 255
}

/// Reinterprets a byte as a two's complement 8-bit integer, widened to 16
/// bits.
pub fn reinterpret_signed(b: u8) -> (r: i16)
    ensures
        r == signed8(b),
{
    let s: i8 = #[verifier::truncate] (b as i8);
    assert(b < 128 ==> (#[verifier::truncate] (b as i8)) as i16 == b as i16) by (bit_vector);
    assert(b >= 128 ==> (#[verifier::truncate] (b as i8)) as i16 == (b as i16) - 256) by (bit_vector);
    s as i16
}

/// Decodes one raw byte under the configured representation. The
/// subtractions of `bias` wrap modulo 2^16, which never changes the value
/// since the difference always fits in 16 bits.
pub fn decode_one(b: u8, c: &DecodeConfig) -> (r: i16)
    ensures
        r == decode_value(b, *c),
        in_decoded_range(r as int),
        c.representation == Representation::TwosComplement ==> r == signed8(b),
{
    match c.representation {
        Representation::Custom => {
            let mut d8: u8 = b;
            if d8 > c.mirror {
                d8 = c.mirror + d8.wrapping_sub(c.mirror);
            }
            if d8 < c.flip {
                d8 = c.flip.wrapping_sub(d8);
            }
            assert(d8 == custom_fold(b, c.flip));
            let d: i16 = reinterpret_signed(d8);
            d.wrapping_sub(c.bias as i16)
        },
        Representation::OnesComplement => {
            if b < 128 {
                b as i16
            } else {
                let inv: u8 = !b;
                assert(!b == 255 - b) by (bit_vector);
                -(inv as i16)
            }
        },
        Representation::TwosComplement => reinterpret_signed(b),
        Representation::SignedMagnitude => {
            match c.sign_bit {
                SignBit::Lsb => {
                    let sign: u8 = b & 1;
                    let mag: u8 = (b & 0xFE) >> 1;
                    assert(b & 1 == b % 2) by (bit_vector);
                    assert((b & 0xFE) >> 1 == b / 2) by (bit_vector);
                    if sign == 0 {
                        mag as i16
                    } else {
                        -(mag as i16)
                    }
                },
                SignBit::Msb => {
                    let sign: u8 = b >> 7;
                    let mag: u8 = b & 0x7F;
                    assert(b >> 7 == b / 128) by (bit_vector);
                    assert(b & 0x7F == b % 128) by (bit_vector);
                    if sign == 0 {
                        mag as i16
                    } else {
                        -(mag as i16)
                    }
                },
            }
        },
        Representation::ExcessK => (b as i16).wrapping_sub(c.bias as i16),
    }
}

} // verus!
