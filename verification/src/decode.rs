//! Decoding raw sample bytes into typed numeric payloads.
//!
//! Each data format fixes a sample width; the byte order fixes how every
//! sample's bytes combine into a value. The two floating-point formats are
//! delivered as 32-bit words resolved for byte order: an IEEE word is the
//! IEEE 754 bit pattern of the sample, an IBM word is the raw IBM
//! floating-point word (sign bit, 7-bit base-16 exponent biased by 64, 24-bit
//! mantissa scaled by two to the minus twenty-fourth). Turning those words
//! into native floating-point values is the one step left to the caller.

use vstd::prelude::*;

use crate::SegyError;
use crate::codec::{ByteOrder, i16_of, i32_of, read_i16, read_i32, read_u32, u32_of};
use crate::header::DataFormat;

verus! {

/// A decoded trace: one numeric payload per sample, tagged by how the bytes
/// were interpreted.
#[derive(Debug, PartialEq, Eq)]
pub enum TraceData {
    /// IBM floating-point samples as raw 32-bit words, byte order resolved.
    IbmF32(Vec<u32>),
    /// IEEE 754 single-precision samples as bit patterns, byte order
    /// resolved.
    IeeeF32(Vec<u32>),
    /// 4-byte two's complement samples.
    I32(Vec<i32>),
    /// 2-byte two's complement samples.
    I16(Vec<i16>),
    /// 1-byte two's complement samples.
    I8(Vec<i8>),
}

/// The 32-bit words of `data` under `order`, one per 4-byte group; a trailing
/// group of fewer than 4 bytes is dropped.
pub open spec fn words_of(data: Seq<u8>, order: ByteOrder) -> Seq<u32> {
    Seq::new(
        (data.len() / 4) as nat,
        |i: int| u32_of(order, data[4 * i], data[4 * i + 1], data[4 * i + 2], data[4 * i + 3]),
    )
}

/// The signed 32-bit samples of `data` under `order`.
pub open spec fn i32s_of(data: Seq<u8>, order: ByteOrder) -> Seq<i32> {
    Seq::new(
        (data.len() / 4) as nat,
        |i: int| i32_of(order, data[4 * i], data[4 * i + 1], data[4 * i + 2], data[4 * i + 3]),
    )
}

/// The signed 16-bit samples of `data` under `order`, one per 2-byte group; a
/// trailing single byte is dropped.
pub open spec fn i16s_of(data: Seq<u8>, order: ByteOrder) -> Seq<i16> {
    Seq::new((data.len() / 2) as nat, |i: int| i16_of(order, data[2 * i], data[2 * i + 1]))
}

/// The signed 8-bit samples of `data`: each byte reinterpreted as two's
/// complement; byte order is irrelevant at 1-byte width.
pub open spec fn i8s_of(data: Seq<u8>) -> Seq<i8> {
    Seq::new(data.len(), |i: int| data[i] as i8)
}

/// Collects the 32-bit words of `data` under `order`.
fn decode_words(data: &[u8], order: ByteOrder) -> (r: Vec<u32>)
    ensures
        r@ == words_of(data@, order),
{
    let len: usize = data.len();
    let mut off: usize = 0;
    let mut v: Vec<u32> = Vec::new();
    while off <= len && len - off >= 4
        invariant
            len == data@.len(),
            off <= len,
            off as int == 4 * v@.len(),
            forall|j: int|
                0 <= j < v@.len() ==> v@[j] == u32_of(
                    order,
                    data@[4 * j],
                    data@[4 * j + 1],
                    data@[4 * j + 2],
                    data@[4 * j + 3],
                ),
        decreases len - off,
    {
        let w: u32 = read_u32(data, off, order);
        v.push(w);
        off = off + 4;
    }
    assert(v@.len() == data@.len() / 4);
    assert(v@ =~= words_of(data@, order));
    v
}

/// Decodes IBM floating-point samples to their raw 32-bit words.
pub fn decode_ibm_trace(data: &[u8], order: ByteOrder) -> (r: TraceData)
    ensures
        r matches TraceData::IbmF32(v) && v@ == words_of(data@, order),
{
    TraceData::IbmF32(decode_words(data, order))
}

/// Decodes IEEE 754 single-precision samples to their bit patterns.
pub fn decode_ieef32_trace(data: &[u8], order: ByteOrder) -> (r: TraceData)
    ensures
        r matches TraceData::IeeeF32(v) && v@ == words_of(data@, order),
{
    TraceData::IeeeF32(decode_words(data, order))
}

/// Decodes signed 32-bit samples.
pub fn decode_i32_trace(data: &[u8], order: ByteOrder) -> (r: TraceData)
    ensures
        r matches TraceData::I32(v) && v@ == i32s_of(data@, order),
{
    let len: usize = data.len();
    let mut off: usize = 0;
    let mut v: Vec<i32> = Vec::new();
    while off <= len && len - off >= 4
        invariant
            len == data@.len(),
            off <= len,
            off as int == 4 * v@.len(),
            forall|j: int|
                0 <= j < v@.len() ==> v@[j] == i32_of(
                    order,
                    data@[4 * j],
                    data@[4 * j + 1],
                    data@[4 * j + 2],
                    data@[4 * j + 3],
                ),
        decreases len - off,
    {
        let w: i32 = read_i32(data, off, order);
        v.push(w);
        off = off + 4;
    }
    assert(v@.len() == data@.len() / 4);
    assert(v@ =~= i32s_of(data@, order));
    TraceData::I32(v)
}

/// Decodes signed 16-bit samples.
pub fn decode_i16_trace(data: &[u8], order: ByteOrder) -> (r: TraceData)
    ensures
        r matches TraceData::I16(v) && v@ == i16s_of(data@, order),
{
    let len: usize = data.len();
    let mut off: usize = 0;
    let mut v: Vec<i16> = Vec::new();
    while off <= len && len - off >= 2
        invariant
            len == data@.len(),
            off <= len,
            off as int == 2 * v@.len(),
            forall|j: int|
                0 <= j < v@.len() ==> v@[j] == i16_of(order, data@[2 * j], data@[2 * j + 1]),
        decreases len - off,
    {
        let w: i16 = read_i16(data, off, order);
        v.push(w);
        off = off + 2;
    }
    assert(v@.len() == data@.len() / 2);
    assert(v@ =~= i16s_of(data@, order));
    TraceData::I16(v)
}

/// Decodes signed 8-bit samples.
pub fn decode_i8_trace(data: &[u8]) -> (r: TraceData)
    ensures
        r matches TraceData::I8(v) && v@ == i8s_of(data@),
{
    let n: usize = data.len();
    let mut v: Vec<i8> = Vec::new();
    let mut k: usize = 0;
    while k < n
        invariant
            n == data@.len(),
            k <= n,
            v@.len() == k,
            forall|j: int| 0 <= j < k ==> v@[j] == i8s_of(data@)[j],
        decreases n - k,
    {
        let b: u8 = *vstd::slice::slice_index_get(data, k);
        v.push(#[verifier::truncate] (b as i8));
        k = k + 1;
    }
    assert(v@ =~= i8s_of(data@));
    TraceData::I8(v)
}

/// What decoding `data` as `format` under `order` must yield: the matching
/// payload variant with exactly the samples the format and order denote, or
/// the one decode-time failure, fixed point with gain.
pub open spec fn decode_post(
    data: Seq<u8>,
    format: DataFormat,
    order: ByteOrder,
    r: Result<TraceData, SegyError>,
) -> bool {
    match format {
        DataFormat::IBMf32 => r matches Ok(TraceData::IbmF32(v)) && v@ == words_of(data, order),
        DataFormat::IEEf32 => r matches Ok(TraceData::IeeeF32(v)) && v@ == words_of(data, order),
        DataFormat::I32 => r matches Ok(TraceData::I32(v)) && v@ == i32s_of(data, order),
        DataFormat::I16 => r matches Ok(TraceData::I16(v)) && v@ == i16s_of(data, order),
        DataFormat::I8 => r matches Ok(TraceData::I8(v)) && v@ == i8s_of(data),
        DataFormat::FixedPointWGain => r == Err::<TraceData, SegyError>(
            SegyError::UnsupportedDataFormat,
        ),
    }
}

/// Decodes raw sample bytes by format and byte order. Pure: no I/O, no state.
/// Fails exactly on the fixed-point-with-gain format, which is recognized at
/// header-parse time but never decoded.
pub fn decode_trace(data: &[u8], format: DataFormat, order: ByteOrder) -> (r: Result<
    TraceData,
    SegyError,
>)
    ensures
        decode_post(data@, format, order, r),
{
    match format {
        DataFormat::IBMf32 => Ok(decode_ibm_trace(data, order)),
        DataFormat::IEEf32 => Ok(decode_ieef32_trace(data, order)),
        DataFormat::I32 => Ok(decode_i32_trace(data, order)),
        DataFormat::I16 => Ok(decode_i16_trace(data, order)),
        DataFormat::I8 => Ok(decode_i8_trace(data)),
        DataFormat::FixedPointWGain => Err(SegyError::UnsupportedDataFormat),
    }
}

/// Payload equality sample by sample: same variant, same values.
pub open spec fn trace_data_eq(a: TraceData, b: TraceData) -> bool {
    match (a, b) {
        (TraceData::IbmF32(x), TraceData::IbmF32(y)) => x@ == y@,
        (TraceData::IeeeF32(x), TraceData::IeeeF32(y)) => x@ == y@,
        (TraceData::I32(x), TraceData::I32(y)) => x@ == y@,
        (TraceData::I16(x), TraceData::I16(y)) => x@ == y@,
        (TraceData::I8(x), TraceData::I8(y)) => x@ == y@,
        _ => false,
    }
}

/// Result equality up to payload contents: equal errors, or payloads equal
/// sample by sample.
pub open spec fn trace_result_eq(
    a: Result<TraceData, SegyError>,
    b: Result<TraceData, SegyError>,
) -> bool {
    match (a, b) {
        (Ok(x), Ok(y)) => trace_data_eq(x, y),
        (Err(x), Err(y)) => x == y,
        _ => false,
    }
}

/// Decoding is deterministic: any two results that the decoding contract
/// admits for the same bytes, format and order are bit-identical, sample by
/// sample.
pub proof fn lemma_decode_deterministic(
    data: Seq<u8>,
    format: DataFormat,
    order: ByteOrder,
    r1: Result<TraceData, SegyError>,
    r2: Result<TraceData, SegyError>,
)
    requires
        decode_post(data, format, order, r1),
        decode_post(data, format, order, r2),
    ensures
        trace_result_eq(r1, r2),
{
}

} // verus!
