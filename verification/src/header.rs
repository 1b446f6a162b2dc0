//! Parsing of the 400-byte binary header.
//!
//! The binary header sits at file offset 3200. It carries the byte-order
//! marker every later read obeys, the data format of the trace samples, the
//! default sample count per trace, and the number of extended textual
//! headers to skip before the first trace record.

use vstd::prelude::*;

use crate::SegyError;
use crate::codec::{ByteOrder, byte_order_of_marker, i16_of, read_i16};

verus! {

/// The sample encodings a binary header may announce (standard rev 1 and
/// below). Fixed point with gain is recognized but never decoded.
#[derive(Debug, Copy, Clone, PartialEq, Eq, Structural)]
pub enum DataFormat {
    /// 4-byte IBM floating point: base-16 exponent, predating IEEE 754.
    IBMf32,
    /// 4-byte two's complement integer.
    I32,
    /// 2-byte two's complement integer.
    I16,
    /// 4-byte fixed point with gain code; recognized, not decodable.
    FixedPointWGain,
    /// 4-byte IEEE 754 single precision.
    IEEf32,
    /// 1-byte two's complement integer.
    I8,
}

/// The data format a header format code denotes, if any.
pub open spec fn format_of_code(code: i16) -> Option<DataFormat> {
    if code == 1 {
        Some(DataFormat::IBMf32)
    } else if code == 2 {
        Some(DataFormat::I32)
    } else if code == 3 {
        Some(DataFormat::I16)
    } else if code == 4 {
        Some(DataFormat::FixedPointWGain)
    } else if code == 5 {
        Some(DataFormat::IEEf32)
    } else if code == 8 {
        Some(DataFormat::I8)
    } else {
        None
    }
}

/// How many bytes one sample of `format` occupies.
pub open spec fn spec_bytes_per_sample(format: DataFormat) -> i16 {
    match format {
        DataFormat::IBMf32 => 4,
        DataFormat::I32 => 4,
        DataFormat::I16 => 2,
        DataFormat::FixedPointWGain => 4,
        DataFormat::IEEf32 => 4,
        DataFormat::I8 => 1,
    }
}

/// How many bytes one sample of `format` occupies.
pub fn bytes_per_sample(format: DataFormat) -> (r: i16)
    ensures
        r == spec_bytes_per_sample(format),
{
    match format {
        DataFormat::IBMf32 => 4,
        DataFormat::I32 => 4,
        DataFormat::I16 => 2,
        DataFormat::FixedPointWGain => 4,
        DataFormat::IEEf32 => 4,
        DataFormat::I8 => 1,
    }
}

/// The display name of a data format, as metadata reports it.
pub open spec fn spec_format_name(format: DataFormat) -> Seq<char> {
    match format {
        DataFormat::IBMf32 => "IBMf32"@,
        DataFormat::I32 => "I32"@,
        DataFormat::I16 => "I16"@,
        DataFormat::FixedPointWGain => "FixedPointWGain"@,
        DataFormat::IEEf32 => "IEEf32"@,
        DataFormat::I8 => "I8"@,
    }
}

impl DataFormat {
    /// The display name of this data format.
    pub fn name(&self) -> (r: &'static str)
        ensures
            r@ == spec_format_name(*self),
    {
        match self {
            DataFormat::IBMf32 => "IBMf32",
            DataFormat::I32 => "I32",
            DataFormat::I16 => "I16",
            DataFormat::FixedPointWGain => "FixedPointWGain",
            DataFormat::IEEf32 => "IEEf32",
            DataFormat::I8 => "I8",
        }
    }
}

/// The parsed binary header: every field later stages need, fixed once per
/// file.
#[derive(Debug, Copy, Clone, PartialEq, Eq, Structural)]
pub struct BinaryHeader {
    pub sample_interval: i16,
    pub samples_per_trace: i16,
    pub bytes_per_sample: i16,
    pub data_format: DataFormat,
    pub extended_text_header_count: i16,
    pub byte_order: ByteOrder,
}

impl BinaryHeader {
    /// A well-formed header's bytes-per-sample agrees with its data format.
    pub open spec fn wf(self) -> bool {
        self.bytes_per_sample == spec_bytes_per_sample(self.data_format)
    }
}

/// What parsing a 400-byte binary header block yields: the header, or a
/// parse failure on an unrecognized byte-order marker or format code.
pub open spec fn spec_parse_binary_header(b: Seq<u8>) -> Result<BinaryHeader, SegyError>
    recommends
        b.len() == 400,
{
    match byte_order_of_marker(b[96], b[97], b[98], b[99]) {
        None => Err(SegyError::ParseFailure),
        Some(order) => {
            let code = i16_of(order, b[24], b[25]);
            match format_of_code(code) {
                None => Err(SegyError::ParseFailure),
                Some(format) => Ok(
                    BinaryHeader {
                        sample_interval: i16_of(order, b[16], b[17]),
                        samples_per_trace: i16_of(order, b[20], b[21]),
                        bytes_per_sample: spec_bytes_per_sample(format),
                        data_format: format,
                        extended_text_header_count: i16_of(order, b[304], b[305]),
                        byte_order: order,
                    },
                ),
            }
        },
    }
}

/// Parses the 400-byte binary header block: detects the byte order from the
/// marker at offset 96, then reads the sample interval (offset 16), samples
/// per trace (offset 20), data format code (offset 24) and extended textual
/// header count (offset 304) under that order. Fails, and never panics, on
/// an unrecognized marker or format code.
pub fn parse_binary_header(buf: &[u8]) -> (r: Result<BinaryHeader, SegyError>)
    requires
        buf@.len() == 400,
    ensures
        r == spec_parse_binary_header(buf@),
        r matches Ok(h) ==> h.wf(),
{
    let order = match detect_order_field(buf) {
        Ok(order) => order,
        Err(e) => {
            return Err(e);
        },
    };
    let code = read_i16(buf, 24, order);
    let format = match code {
        1 => DataFormat::IBMf32,
        2 => DataFormat::I32,
        3 => DataFormat::I16,
        4 => DataFormat::FixedPointWGain,
        5 => DataFormat::IEEf32,
        8 => DataFormat::I8,
        _ => {
            return Err(SegyError::ParseFailure);
        },
    };
    Ok(
        BinaryHeader {
            sample_interval: read_i16(buf, 16, order),
            samples_per_trace: read_i16(buf, 20, order),
            bytes_per_sample: bytes_per_sample(format),
            data_format: format,
            extended_text_header_count: read_i16(buf, 304, order),
            byte_order: order,
        },
    )
}

/// Reads the order-detection marker at offset 96 of the binary header block
/// and classifies it.
fn detect_order_field(buf: &[u8]) -> (r: Result<ByteOrder, SegyError>)
    requires
        buf@.len() == 400,
    ensures
        match byte_order_of_marker(buf@[96], buf@[97], buf@[98], buf@[99]) {
            Some(order) => r == Ok::<ByteOrder, SegyError>(order),
            None => r == Err::<ByteOrder, SegyError>(SegyError::ParseFailure),
        },
{
    crate::codec::detect_byte_order(buf[96], buf[97], buf[98], buf[99])
}

} // verus!
