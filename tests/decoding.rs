use pcm_extract::config::{Compression, DecodeConfig, Representation, SignBit, sign_bit_from_code};
use pcm_extract::predictor::Predictor;
use pcm_extract::representation::{decode_one, reinterpret_signed};
use pcm_extract::session::{decode, DecodeError};

fn config_with(representation: Representation, compression: Compression) -> DecodeConfig {
    let mut c = DecodeConfig::default();
    c.representation = representation;
    c.compression = compression;
    c
}

#[test]
fn twos_complement_matches_signed_reinterpretation() {
    let c = config_with(Representation::TwosComplement, Compression::Uncompressed);
    for b in 0..=255u8 {
        assert_eq!(decode_one(b, &c), (b as i8) as i16);
        assert_eq!(reinterpret_signed(b), (b as i8) as i16);
    }
    assert_eq!(decode_one(0x80, &c), -128);
    assert_eq!(decode_one(0x7F, &c), 127);
}

#[test]
fn ones_complement_has_two_zeros() {
    let c = config_with(Representation::OnesComplement, Compression::Uncompressed);
    assert_eq!(decode_one(0x00, &c), 0);
    assert_eq!(decode_one(0xFF, &c), 0);
    assert_eq!(decode_one(0x01, &c), 1);
    assert_eq!(decode_one(0xFE, &c), -1);
    assert_eq!(decode_one(0x80, &c), -127);
}

#[test]
fn signed_magnitude_both_sign_positions() {
    let mut c = config_with(Representation::SignedMagnitude, Compression::Uncompressed);
    c.sign_bit = SignBit::Msb;
    assert_eq!(decode_one(0x81, &c), -1);
    assert_eq!(decode_one(0x01, &c), 1);
    assert_eq!(decode_one(0xFF, &c), -127);
    c.sign_bit = SignBit::Lsb;
    assert_eq!(decode_one(0x03, &c), -1);
    assert_eq!(decode_one(0x02, &c), 1);
    assert_eq!(decode_one(0xFF, &c), -127);
}

#[test]
fn sign_bit_codes() {
    assert_eq!(sign_bit_from_code(0), SignBit::Lsb);
    assert_eq!(sign_bit_from_code(1), SignBit::Msb);
    assert_eq!(sign_bit_from_code(7), SignBit::Msb);
}

#[test]
fn excess_k_subtracts_bias() {
    let mut c = config_with(Representation::ExcessK, Compression::Uncompressed);
    c.bias = 128;
    assert_eq!(decode_one(0x80, &c), 0);
    assert_eq!(decode_one(0x00, &c), -128);
    c.bias = 255;
    assert_eq!(decode_one(0x00, &c), -255);
    c.bias = 0;
    assert_eq!(decode_one(0xFF, &c), 255);
}

#[test]
fn custom_folds_then_subtracts() {
    let mut c = config_with(Representation::Custom, Compression::Uncompressed);
    c.flip = 10;
    c.bias = 2;
    assert_eq!(decode_one(3, &c), 5);
    assert_eq!(decode_one(10, &c), 8);
    c.flip = 0;
    c.mirror = 0x10;
    c.bias = 0;
    assert_eq!(decode_one(0xF0, &c), -16);
    c.flip = 200;
    c.bias = 255;
    assert_eq!(decode_one(0, &c), (200u8 as i8) as i16 - 255);
}

#[test]
fn predictor_formulas() {
    let mut p = Predictor::new(Compression::Uncompressed);
    assert_eq!(p.step(1, 3), 768);
    assert_eq!(p.step(1, 255), 32767);
    assert_eq!(p.step(1, -383), -32768);

    let mut p = Predictor::new(Compression::Order1);
    assert_eq!(p.step(0, 5), 5);
    assert_eq!(p.step(0, -2), 3);

    let mut p = Predictor::new(Compression::Order2);
    assert_eq!(p.step(0, 4), 4);
    assert_eq!(p.step(0, 1), 9);
    assert_eq!(p.step(0, 0), 14);

    let mut p = Predictor::new(Compression::Order3);
    assert_eq!(p.step(0, 1), 1);
    assert_eq!(p.step(0, 1), 4);
    assert_eq!(p.step(0, 1), 10);
    assert_eq!(p.step(0, 0), 3 * 10 - 3 * 4 + 1);

    let mut p = Predictor::new(Compression::NonlinearSquaredDelta);
    assert_eq!(p.step(3, 0), 9);
    assert_eq!(p.step(128 + 2, 0), 5);
    assert_eq!(p.step(127, 0), 5 + 127 * 127);
    assert_eq!(p.step(127, 0), 5 + 2 * 127 * 127);
    assert_eq!(p.step(127, 0), 32767);
    assert_eq!(p.step(255, 0), 32767 - 127 * 127);

    let mut p = Predictor::new(Compression::NonlinearToggleSign);
    assert_eq!(p.step(3, -3), 18);
    assert_eq!(p.step(5, 2), 10);
    assert_eq!(p.step(4, 2), -8);
    assert_eq!(p.step(1, 200), -32768);
}

#[test]
fn order1_zero_residuals_stay_zero() {
    let c = config_with(Representation::TwosComplement, Compression::Order1);
    let out = decode(&vec![0u8; 16], &c).unwrap();
    assert_eq!(out, vec![0i16; 16]);
}

#[test]
fn order2_and_order3_zero_residuals_stay_zero() {
    for comp in [Compression::Order2, Compression::Order3] {
        let c = config_with(Representation::TwosComplement, comp);
        let out = decode(&vec![0u8; 16], &c).unwrap();
        assert_eq!(out, vec![0i16; 16]);
    }
}

#[test]
fn order1_accumulates_with_saturation() {
    let c = config_with(Representation::TwosComplement, Compression::Order1);
    let out = decode(&vec![0x7Fu8; 300], &c).unwrap();
    assert_eq!(out[0], 127);
    assert_eq!(out[1], 254);
    assert_eq!(out[299], 32767);
}

#[test]
fn stride_truncates_at_end_of_stream() {
    let input: Vec<u8> = (0..10u8).collect();
    let mut c = config_with(Representation::TwosComplement, Compression::Order1);
    c.stride = 3;
    assert_eq!(decode(&input, &c).unwrap(), vec![0, 3, 9, 18]);
    let input9: Vec<u8> = (0..9u8).collect();
    assert_eq!(decode(&input9, &c).unwrap().len(), 3);
    c.start_offset = 2;
    assert_eq!(decode(&input, &c).unwrap(), vec![2, 7, 15]);
    c.start_offset = 9;
    assert_eq!(decode(&input, &c).unwrap(), vec![9]);
    c.start_offset = 0;
    c.stride = usize::MAX;
    assert_eq!(decode(&input, &c).unwrap(), vec![0]);
}

#[test]
fn decode_errors() {
    let mut c = DecodeConfig::default();
    assert_eq!(decode(&vec![], &c), Err(DecodeError::StartOutOfBounds));
    c.start_offset = 4;
    assert_eq!(decode(&vec![1, 2, 3, 4], &c), Err(DecodeError::StartOutOfBounds));
    c.stride = 0;
    assert_eq!(decode(&vec![1, 2, 3, 4], &c), Err(DecodeError::ZeroStride));
}

#[test]
fn twos_complement_round_trip_scenario() {
    let c = config_with(Representation::TwosComplement, Compression::Uncompressed);
    let out = decode(&vec![0x00, 0x7F, 0x80, 0xFF], &c).unwrap();
    assert_eq!(out, vec![0, 127 * 256, -128 * 256, -256]);
}

#[test]
fn uncompressed_saturates_wide_values() {
    let mut c = config_with(Representation::ExcessK, Compression::Uncompressed);
    c.bias = 0;
    assert_eq!(decode(&vec![0xFF, 0x01], &c).unwrap(), vec![32767, 256]);
    c.bias = 255;
    assert_eq!(decode(&vec![0x00], &c).unwrap(), vec![-32768]);
}
