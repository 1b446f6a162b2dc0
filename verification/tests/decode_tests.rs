use fastsegy::codec::{detect_byte_order, read_i16, read_i32, read_u16, read_u32, ByteOrder};
use fastsegy::decode::{
    decode_i16_trace, decode_i32_trace, decode_i8_trace, decode_ibm_trace, decode_ieef32_trace,
    decode_trace, TraceData,
};
use fastsegy::header::DataFormat;
use fastsegy::SegyError;

/// The IBM floating-point interpretation of a raw 32-bit word, as a consumer
/// of the library computes it.
fn ibm_value(word: u32) -> f32 {
    if word == 0 {
        return 0.0;
    }
    let sign = if word & 0x8000_0000 != 0 { -1.0f32 } else { 1.0f32 };
    let exponent = ((word >> 24) & 0x7F) as i32;
    let mantissa = (word & 0x00FF_FFFF) as f32 / (1u32 << 24) as f32;
    sign * mantissa * 16f32.powi(exponent - 64)
}

#[test]
fn detect_recognizes_the_four_markers() {
    assert_eq!(detect_byte_order(1, 2, 3, 4), Ok(ByteOrder::BigEndian));
    assert_eq!(detect_byte_order(4, 3, 2, 1), Ok(ByteOrder::LittleEndian));
    assert_eq!(detect_byte_order(2, 1, 4, 3), Ok(ByteOrder::SwappedWord));
    assert_eq!(detect_byte_order(0, 0, 0, 0), Ok(ByteOrder::BigEndian));
    assert_eq!(detect_byte_order(9, 9, 9, 9), Err(SegyError::ParseFailure));
}

#[test]
fn reads_follow_the_byte_order() {
    let buf = [0x01u8, 0x02, 0x03, 0x04];
    assert_eq!(read_u16(&buf, 0, ByteOrder::BigEndian), 0x0102);
    assert_eq!(read_u16(&buf, 0, ByteOrder::LittleEndian), 0x0201);
    assert_eq!(read_u16(&buf, 0, ByteOrder::SwappedWord), 0x0201);
    assert_eq!(read_u32(&buf, 0, ByteOrder::BigEndian), 0x01020304);
    assert_eq!(read_u32(&buf, 0, ByteOrder::LittleEndian), 0x04030201);
    assert_eq!(read_u32(&buf, 0, ByteOrder::SwappedWord), 0x02010403);
    let neg = [0xFFu8, 0xFE];
    assert_eq!(read_i16(&neg, 0, ByteOrder::BigEndian), -2);
    assert_eq!(read_i16(&neg, 0, ByteOrder::LittleEndian), -257);
}

#[test]
fn same_bytes_three_orders_three_values() {
    // An order-asymmetric sample decodes to three different, predictable
    // values under the three byte orders.
    let bytes = [0x01u8, 0x02, 0x03, 0x04];
    let be = read_i32(&bytes, 0, ByteOrder::BigEndian);
    let le = read_i32(&bytes, 0, ByteOrder::LittleEndian);
    let sw = read_i32(&bytes, 0, ByteOrder::SwappedWord);
    assert_eq!(be, 0x01020304);
    assert_eq!(le, 0x04030201);
    assert_eq!(sw, 0x02010403);
    assert_ne!(be, le);
    assert_ne!(be, sw);
    assert_ne!(le, sw);
    // An order-symmetric sample is the exception.
    let pal = [0x0Au8, 0x0B, 0x0B, 0x0A];
    assert_eq!(
        read_i32(&pal, 0, ByteOrder::BigEndian),
        read_i32(&pal, 0, ByteOrder::LittleEndian)
    );
}

#[test]
fn ieee_trace_reproduces_written_floats() {
    let samples = [1.0f32, -2.5, 0.0];
    let mut bytes: Vec<u8> = Vec::new();
    for s in samples.iter() {
        bytes.extend_from_slice(&s.to_bits().to_be_bytes());
    }
    match decode_ieef32_trace(&bytes, ByteOrder::BigEndian) {
        TraceData::IeeeF32(words) => {
            let values: Vec<f32> = words.iter().map(|w| f32::from_bits(*w)).collect();
            assert_eq!(values, vec![1.0f32, -2.5, 0.0]);
        }
        _ => panic!("wrong variant"),
    }
}

#[test]
fn ibm_trace_decodes_textbook_values() {
    // 0x41100000 is 1.0: exponent 65, mantissa 1/16, 16^1 / 16 = 1.
    // 0x42640000 is 100.0: exponent 66, mantissa 100/256, 16^2 * 100 / 256.
    let bytes = [0x41u8, 0x10, 0x00, 0x00, 0x42, 0x64, 0x00, 0x00, 0x00, 0x00, 0x00, 0x00];
    match decode_ibm_trace(&bytes, ByteOrder::BigEndian) {
        TraceData::IbmF32(words) => {
            assert_eq!(words.len(), 3);
            assert_eq!(words[0], 0x41100000);
            assert_eq!(ibm_value(words[0]), 1.0);
            assert_eq!(ibm_value(words[1]), 100.0);
            assert_eq!(ibm_value(words[2]), 0.0);
        }
        _ => panic!("wrong variant"),
    }
}

#[test]
fn ibm_trace_swapped_word_pairs() {
    // The swapped-word order restores the big-endian word from pair-swapped
    // bytes: [1, 0, 3, 2].
    let bytes = [0x10u8, 0x41, 0x00, 0x00];
    match decode_ibm_trace(&bytes, ByteOrder::SwappedWord) {
        TraceData::IbmF32(words) => {
            assert_eq!(words[0], 0x41100000);
            assert_eq!(ibm_value(words[0]), 1.0);
        }
        _ => panic!("wrong variant"),
    }
}

#[test]
fn integer_traces_decode_per_width() {
    match decode_i32_trace(&[0x00u8, 0x00, 0x00, 0x2A, 0xFF, 0xFF, 0xFF, 0xFF], ByteOrder::BigEndian)
    {
        TraceData::I32(v) => assert_eq!(v, vec![42, -1]),
        _ => panic!("wrong variant"),
    }
    match decode_i16_trace(&[0x00u8, 0x07, 0xFF, 0xFE], ByteOrder::BigEndian) {
        TraceData::I16(v) => assert_eq!(v, vec![7, -2]),
        _ => panic!("wrong variant"),
    }
    match decode_i16_trace(&[0x07u8, 0x00, 0xFE, 0xFF], ByteOrder::SwappedWord) {
        TraceData::I16(v) => assert_eq!(v, vec![7, -2]),
        _ => panic!("wrong variant"),
    }
    match decode_i8_trace(&[0x01u8, 0xFF, 0x80]) {
        TraceData::I8(v) => assert_eq!(v, vec![1, -1, -128]),
        _ => panic!("wrong variant"),
    }
}

#[test]
fn fixed_point_with_gain_never_decodes() {
    let r = decode_trace(&[0u8; 8], DataFormat::FixedPointWGain, ByteOrder::BigEndian);
    assert_eq!(r, Err(SegyError::UnsupportedDataFormat));
}

#[test]
fn decode_dispatches_by_format() {
    let bytes = [0x00u8, 0x00, 0x00, 0x01];
    match decode_trace(&bytes, DataFormat::I32, ByteOrder::BigEndian) {
        Ok(TraceData::I32(v)) => assert_eq!(v, vec![1]),
        _ => panic!("wrong variant"),
    }
    match decode_trace(&bytes, DataFormat::IEEf32, ByteOrder::BigEndian) {
        Ok(TraceData::IeeeF32(v)) => assert_eq!(v, vec![1]),
        _ => panic!("wrong variant"),
    }
}
