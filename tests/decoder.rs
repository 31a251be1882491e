use aitos::qoa::dequantize;
use aitos::{QoaDecoder, QoaError};

// One frame, one slice of 20 samples, zero predictor state, all codes zero.
const VALID_QOA: [u8; 40] = [
    0x71, 0x6F, 0x61, 0x66, // "qoaf"
    0x00, 0x00, 0x00, 0x14, // total samples = 20
    0x01, // num_channels = 1
    0x00, 0xAC, 0x44, // samplerate = 44100
    0x00, 0x14, // fsamples = 20
    0x00, 0x20, // fsize = 32
    0x00, 0x00, 0x00, 0x00, 0x00, 0x00, 0x00, 0x00, //
    0x00, 0x00, 0x00, 0x00, 0x00, 0x00, 0x00, 0x00, //
    0x00, 0x00, 0x00, 0x00, 0x00, 0x00, 0x00, 0x00, //
];

// Two frames: 20 samples, then 10.
const MULTIFRAME_QOA: [u8; 72] = [
    0x71, 0x6F, 0x61, 0x66, //
    0x00, 0x00, 0x00, 0x1E, // total samples = 30
    0x01, 0x00, 0xAC, 0x44, 0x00, 0x14, 0x00, 0x20, //
    0x00, 0x00, 0x00, 0x00, 0x00, 0x00, 0x00, 0x00, //
    0x00, 0x00, 0x00, 0x00, 0x00, 0x00, 0x00, 0x00, //
    0x00, 0x00, 0x00, 0x00, 0x00, 0x00, 0x00, 0x00, //
    0x01, 0x00, 0xAC, 0x44, 0x00, 0x0A, 0x00, 0x20, //
    0x00, 0x00, 0x00, 0x00, 0x00, 0x00, 0x00, 0x00, //
    0x00, 0x00, 0x00, 0x00, 0x00, 0x00, 0x00, 0x00, //
    0x00, 0x00, 0x00, 0x00, 0x00, 0x00, 0x00, 0x00, //
];

const INVALID_MAGIC: [u8; 40] = [
    0x78, 0x6F, 0x61, 0x66, // "xoaf"
    0x00, 0x00, 0x00, 0x14, //
    0x01, 0x00, 0xAC, 0x44, 0x00, 0x14, 0x00, 0x20, //
    0x00, 0x00, 0x00, 0x00, 0x00, 0x00, 0x00, 0x00, //
    0x00, 0x00, 0x00, 0x00, 0x00, 0x00, 0x00, 0x00, //
    0x00, 0x00, 0x00, 0x00, 0x00, 0x00, 0x00, 0x00, //
];

const TRUNCATED_HEADER: [u8; 4] = [0x71, 0x6F, 0x61, 0x66];

const TRUNCATED_FRAME_HEADER: [u8; 10] = [
    0x71, 0x6F, 0x61, 0x66, //
    0x00, 0x00, 0x00, 0x14, //
    0x01, 0x00, //
];

const TRUNCATED_LMS: [u8; 24] = [
    0x71, 0x6F, 0x61, 0x66, //
    0x00, 0x00, 0x00, 0x14, //
    0x01, 0x00, 0xAC, 0x44, 0x00, 0x14, 0x00, 0x20, //
    0x00, 0x00, 0x00, 0x00, 0x00, 0x00, 0x00, 0x00, //
];

const MULTIPLE_CHANNELS: [u8; 40] = [
    0x71, 0x6F, 0x61, 0x66, //
    0x00, 0x00, 0x00, 0x14, //
    0x02, 0x00, 0xAC, 0x44, 0x00, 0x14, 0x00, 0x20, //
    0x00, 0x00, 0x00, 0x00, 0x00, 0x00, 0x00, 0x00, //
    0x00, 0x00, 0x00, 0x00, 0x00, 0x00, 0x00, 0x00, //
    0x00, 0x00, 0x00, 0x00, 0x00, 0x00, 0x00, 0x00, //
];

// The second frame declares 48000 Hz where the first declared 44100 Hz.
const SAMPLERATE_CHANGE: [u8; 72] = [
    0x71, 0x6F, 0x61, 0x66, //
    0x00, 0x00, 0x00, 0x1E, //
    0x01, 0x00, 0xAC, 0x44, 0x00, 0x14, 0x00, 0x20, //
    0x00, 0x00, 0x00, 0x00, 0x00, 0x00, 0x00, 0x00, //
    0x00, 0x00, 0x00, 0x00, 0x00, 0x00, 0x00, 0x00, //
    0x00, 0x00, 0x00, 0x00, 0x00, 0x00, 0x00, 0x00, //
    0x01, 0x00, 0xBB, 0x80, 0x00, 0x0A, 0x00, 0x20, //
    0x00, 0x00, 0x00, 0x00, 0x00, 0x00, 0x00, 0x00, //
    0x00, 0x00, 0x00, 0x00, 0x00, 0x00, 0x00, 0x00, //
    0x00, 0x00, 0x00, 0x00, 0x00, 0x00, 0x00, 0x00, //
];

fn drain(decoder: &mut QoaDecoder) -> Vec<i16> {
    let mut out = Vec::new();
    while let Some(s) = decoder.next_sample() {
        out.push(s);
    }
    out
}

/// Builds a file from a header total and frames given as (rate, sample count, state, slices).
fn file(total: u32, frames: &[(u32, u16, [u8; 16], Vec<[u8; 8]>)]) -> Vec<u8> {
    let mut d = vec![0x71, 0x6F, 0x61, 0x66];
    d.extend_from_slice(&total.to_be_bytes());
    for (rate, n, state, slices) in frames {
        d.push(1);
        d.extend_from_slice(&rate.to_be_bytes()[1..]);
        d.extend_from_slice(&n.to_be_bytes());
        d.extend_from_slice(&((24 + 8 * slices.len()) as u16).to_be_bytes());
        d.extend_from_slice(state);
        for s in slices {
            d.extend_from_slice(s);
        }
    }
    d
}

#[test]
fn test_valid_qoa_decoding() {
    let mut decoder = QoaDecoder::new(&VALID_QOA).expect("Decoder creation failed");
    for _ in 0..20 {
        assert_eq!(decoder.next_sample(), Some(1));
    }
    assert_eq!(decoder.next_sample(), None);
}

#[test]
fn lib_test_reset() {
    let mut decoder = QoaDecoder::new(&VALID_QOA).expect("Decoder creation failed");
    for _ in 0..5 {
        assert_eq!(decoder.next_sample(), Some(1));
    }
    decoder.reset();
    for _ in 0..20 {
        assert_eq!(decoder.next_sample(), Some(1));
    }
    assert_eq!(decoder.next_sample(), None);
}

#[test]
fn test_multiframe_decoding() {
    let mut decoder = QoaDecoder::new(&MULTIFRAME_QOA).expect("Decoder creation failed");
    for _ in 0..30 {
        assert_eq!(decoder.next_sample(), Some(1));
    }
    assert_eq!(decoder.next_sample(), None);
}

#[test]
fn test_invalid_magic() {
    match QoaDecoder::new(&INVALID_MAGIC) {
        Err(QoaError::InvalidFormat(_)) => {}
        _ => panic!("Expected InvalidFormat error due to invalid magic header"),
    }
}

#[test]
fn test_truncated_header() {
    match QoaDecoder::new(&TRUNCATED_HEADER) {
        Err(QoaError::UnexpectedEof) => {}
        _ => panic!("Expected UnexpectedEof error due to truncated header"),
    }
}

#[test]
fn test_truncated_frame_header() {
    match QoaDecoder::new(&TRUNCATED_FRAME_HEADER) {
        Err(QoaError::UnexpectedEof) => {}
        _ => panic!("Expected UnexpectedEof error due to truncated frame header"),
    }
}

#[test]
fn test_truncated_lms_state() {
    match QoaDecoder::new(&TRUNCATED_LMS) {
        Err(QoaError::UnexpectedEof) => {}
        _ => panic!("Expected UnexpectedEof error due to truncated LMS state"),
    }
}

#[test]
fn multiple_channels_are_unsupported() {
    assert!(matches!(QoaDecoder::new(&MULTIPLE_CHANNELS), Err(QoaError::UnsupportedFormat)));
}

#[test]
fn sample_rate_change_is_unsupported() {
    let mut decoder = QoaDecoder::new(&SAMPLERATE_CHANGE).expect("first frame is valid");
    for _ in 0..20 {
        assert!(matches!(decoder.try_next_sample(), Ok(Some(1))));
    }
    assert!(matches!(decoder.try_next_sample(), Err(QoaError::UnsupportedFormat)));
    // The fault stays where it is, and the plain interface reports it as the end.
    assert!(matches!(decoder.try_next_sample(), Err(QoaError::UnsupportedFormat)));
    assert_eq!(decoder.next_sample(), None);
}

#[test]
fn empty_input_is_truncated() {
    assert!(matches!(QoaDecoder::new(&[]), Err(QoaError::UnexpectedEof)));
}

#[test]
fn header_without_frames_is_truncated() {
    let d = [0x71, 0x6F, 0x61, 0x66, 0, 0, 0, 0];
    assert!(matches!(QoaDecoder::new(&d), Err(QoaError::UnexpectedEof)));
}

#[test]
fn truncated_slice_is_unexpected_eof() {
    let d = &VALID_QOA[..36];
    let mut decoder = QoaDecoder::new(d).expect("header and state are complete");
    assert!(matches!(decoder.try_next_sample(), Err(QoaError::UnexpectedEof)));
    assert_eq!(decoder.next_sample(), None);
}

#[test]
fn truncated_second_frame_is_unexpected_eof() {
    let d = &MULTIFRAME_QOA[..44];
    let mut decoder = QoaDecoder::new(d).expect("first frame is complete");
    for _ in 0..20 {
        assert!(matches!(decoder.try_next_sample(), Ok(Some(1))));
    }
    assert!(matches!(decoder.try_next_sample(), Err(QoaError::UnexpectedEof)));
}

#[test]
fn bytes_ending_before_the_declared_total_are_truncated() {
    let mut d = VALID_QOA;
    d[7] = 21;
    let mut decoder = QoaDecoder::new(&d).unwrap();
    for _ in 0..20 {
        assert_eq!(decoder.next_sample(), Some(1));
    }
    assert!(matches!(decoder.try_next_sample(), Err(QoaError::UnexpectedEof)));
}

#[test]
fn declared_total_limits_the_samples() {
    let mut d = VALID_QOA;
    d[7] = 7;
    let mut decoder = QoaDecoder::new(&d).unwrap();
    assert_eq!(drain(&mut decoder), vec![1; 7]);
    assert!(matches!(decoder.try_next_sample(), Ok(None)));
}

#[test]
fn sample_rate_comes_from_the_first_frame() {
    let decoder = QoaDecoder::new(&VALID_QOA).unwrap();
    assert_eq!(decoder.sample_rate(), 44100);
    let decoder = QoaDecoder::new(&SAMPLERATE_CHANGE).unwrap();
    assert_eq!(decoder.sample_rate(), 44100);
}

#[test]
fn same_bytes_decode_to_the_same_samples() {
    let slice = [48, 83, 151, 112, 83, 151, 112, 83];
    let d = file(45, &[(22050, 25, [0; 16], vec![slice, slice]), (22050, 20, [0; 16], vec![slice])]);
    let mut a = QoaDecoder::new(&d).unwrap();
    let mut b = QoaDecoder::new(&d).unwrap();
    let first = drain(&mut a);
    assert_eq!(first.len(), 45);
    assert_eq!(first, drain(&mut b));
}

#[test]
fn reset_after_partial_consumption_matches_a_fresh_decoder() {
    let slice = [48, 83, 151, 112, 83, 151, 112, 83];
    let d = file(40, &[(22050, 40, [0; 16], vec![slice, slice])]);
    let mut fresh = QoaDecoder::new(&d).unwrap();
    let all = drain(&mut fresh);
    let mut used = QoaDecoder::new(&d).unwrap();
    for _ in 0..27 {
        used.next_sample();
    }
    used.reset();
    assert_eq!(drain(&mut used), all);
}

#[test]
fn sample_count_matches_the_header_with_a_partial_last_slice() {
    let slice = [0u8; 8];
    let d = file(
        63,
        &[
            (8000, 41, [0; 16], vec![slice, slice, slice]),
            (8000, 0, [0; 16], vec![]),
            (8000, 22, [0; 16], vec![slice, slice]),
        ],
    );
    let mut decoder = QoaDecoder::new(&d).unwrap();
    assert_eq!(drain(&mut decoder).len(), 63);
    assert!(matches!(decoder.try_next_sample(), Ok(None)));
}

#[test]
fn slice_decodes_bit_exactly_from_zero_state() {
    // Scale factor 3, codes 0, 1, ..., 7 repeating.
    let slice = [48, 83, 151, 112, 83, 151, 112, 83];
    let d = file(20, &[(44100, 20, [0; 16], vec![slice])]);
    let mut decoder = QoaDecoder::new(&d).unwrap();
    let expected: Vec<i16> = vec![
        34, -34, 113, -114, 203, -205, 317, -321, 43, -42, 119, -119, 206, -210, 324, -330, 54,
        -52, 127, -125,
    ];
    assert_eq!(drain(&mut decoder), expected);
}

#[test]
fn slice_decodes_bit_exactly_from_stored_state() {
    // History 100, -200, 300, -400; weights 4096, -2048, 1024, 8192.
    let state = [
        0x00, 0x64, 0xFF, 0x38, 0x01, 0x2C, 0xFE, 0x70, 0x10, 0x00, 0xF8, 0x00, 0x04, 0x00, 0x20,
        0x00,
    ];
    let slice = [48, 83, 151, 112, 83, 151, 112, 83];
    let d = file(20, &[(44100, 20, state, vec![slice])]);
    let mut decoder = QoaDecoder::new(&d).unwrap();
    let expected: Vec<i16> = vec![
        -229, -489, -155, -472, -282, -750, -431, -1003, -978, -1408, -1386, -1934, -2048, -2849,
        -3010, -4126, -4796, -6035, -7021, -8767,
    ];
    assert_eq!(drain(&mut decoder), expected);
}

#[test]
fn large_residuals_clamp_to_the_sample_range() {
    // Scale factor 15, every code 6 (residual 14336).
    let slice = [253, 182, 219, 109, 182, 219, 109, 182];
    let d = file(20, &[(44100, 20, [0; 16], vec![slice])]);
    let mut decoder = QoaDecoder::new(&d).unwrap();
    let out = drain(&mut decoder);
    assert_eq!(&out[..4], &[14336, 15904, 20951, 31133]);
    assert!(out[4..].iter().all(|&s| s == 32767));
}

#[test]
fn dequantization_table_values() {
    assert_eq!(dequantize(0, 0), 1);
    assert_eq!(dequantize(0, 1), -1);
    assert_eq!(dequantize(1, 2), 18);
    assert_eq!(dequantize(7, 7), -2128);
    assert_eq!(dequantize(12, 5), -5207);
    assert_eq!(dequantize(15, 6), 14336);
    assert_eq!(dequantize(15, 7), -14336);
}
