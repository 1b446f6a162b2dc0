//! The SEG-Y file facade.
//!
//! A `SegyFile` owns the file's bytes, the parsed binary header and the trace
//! index, all fixed when the file is opened. Opening parses the binary
//! header and walks the trace region once; every later call is a pure read:
//! the textual header, a metadata snapshot, or one decoded trace located
//! through the index.

use vstd::prelude::*;

use crate::SegyError;
use crate::codec::ByteOrder;
use crate::decode::{TraceData, decode_post, decode_trace, lemma_decode_deterministic,
    trace_result_eq};
use crate::header::{BinaryHeader, DataFormat, parse_binary_header, spec_parse_binary_header};
use crate::indexer::{build_trace_index, lemma_trace_offsets_wf, offsets_wf, record_bytes,
    samples_at, start_of_data, trace_offsets};
use crate::text::{header_ascii, is_ascii_bytes, read_text_header, text_chars, trimmed_len};

verus! {

/// The abstract state of an opened file: its bytes, its parsed header, and
/// its trace index.
pub struct SegyView {
    pub bytes: Seq<u8>,
    pub header: BinaryHeader,
    pub index: Seq<u64>,
}

/// An opened SEG-Y file: the file's bytes with the header and trace index
/// built from them. Read-only for its whole lifetime.
pub struct SegyFile {
    data: Vec<u8>,
    b_header: BinaryHeader,
    trace_index: Vec<u64>,
    trace_count: u64,
}

impl View for SegyFile {
    type V = SegyView;

    closed spec fn view(&self) -> SegyView {
        SegyView { bytes: self.data@, header: self.b_header, index: self.trace_index@ }
    }
}

/// The read-only metadata snapshot of an opened file.
#[derive(Debug, Copy, Clone, PartialEq, Eq, Structural)]
pub struct SegyMetadata {
    pub sample_interval: i16,
    pub samples_per_trace: i16,
    pub bytes_per_sample: i16,
    pub extended_text_header_count: i16,
    pub data_format: DataFormat,
    pub byte_order: ByteOrder,
    pub trace_count: usize,
}

/// The raw sample bytes of the trace record at `off`: everything after its
/// 240-byte trace header, as many bytes as its sample count and the sample
/// width say.
pub open spec fn trace_samples_bytes(bytes: Seq<u8>, hdr: BinaryHeader, off: int) -> Seq<u8> {
    bytes.subrange(off + 240, off + record_bytes(bytes, hdr, off))
}

/// What reading trace `trace_number` (1-based) must yield: the two argument
/// failures on an out-of-range number, and otherwise exactly what decoding
/// the trace's sample bytes yields, with the sample count re-read from the
/// trace's own header.
pub open spec fn get_trace_post(
    v: SegyView,
    trace_number: u32,
    r: Result<TraceData, SegyError>,
) -> bool {
    if trace_number == 0 {
        r == Err::<TraceData, SegyError>(SegyError::InvalidArgument)
    } else if trace_number as int > v.index.len() as int {
        r == Err::<TraceData, SegyError>(
            SegyError::TraceOutOfRange { requested: trace_number, trace_count: v.index.len() as usize },
        )
    } else {
        decode_post(
            trace_samples_bytes(v.bytes, v.header, v.index[trace_number as int - 1] as int),
            v.header.data_format,
            v.header.byte_order,
            r,
        )
    }
}

/// Everything `open_segy` establishes and every read relies on: the header
/// is well formed and parses from the header block of the bytes, and the
/// index is exactly what the one-pass walk of the bytes yields.
pub open spec fn view_wf(v: SegyView) -> bool {
    &&& v.header.wf()
    &&& v.bytes.len() >= 3600
    &&& spec_parse_binary_header(v.bytes.subrange(3200, 3600)) == Ok::<BinaryHeader, SegyError>(
        v.header,
    )
    &&& v.index.map_values(|u: u64| u as int) == trace_offsets(v.bytes, v.header)
}

impl SegyFile {
    /// Opens a file from its bytes: parses the binary header at offset 3200
    /// and builds the trace index in one pass. Fails, with no partial file
    /// observable, when the bytes cannot hold the two headers or the binary
    /// header does not parse; never fails otherwise.
    pub fn open_segy(data: Vec<u8>) -> (r: Result<SegyFile, SegyError>)
        ensures
            data@.len() < 3600 ==> r == Err::<SegyFile, SegyError>(SegyError::ParseFailure),
            data@.len() >= 3600 ==> match spec_parse_binary_header(
                data@.subrange(3200, 3600),
            ) {
                Ok(h) => r matches Ok(f) && f@.bytes == data@ && f@.header == h
                    && f@.index.map_values(|v: u64| v as int) == trace_offsets(data@, h)
                    && view_wf(f@),
                Err(e) => r == Err::<SegyFile, SegyError>(e),
            },
    {
        if data.len() < 3600 {
            return Err(SegyError::ParseFailure);
        }
        let header_block: &[u8] = vstd::slice::slice_subrange(data.as_slice(), 3200, 3600);
        let b_header: BinaryHeader = match parse_binary_header(header_block) {
            Ok(h) => h,
            Err(e) => {
                return Err(e);
            },
        };
        let trace_index: Vec<u64> = build_trace_index(data.as_slice(), &b_header);
        let trace_count: u64 = trace_index.len() as u64;
        Ok(SegyFile { data, b_header, trace_index, trace_count })
    }

    /// The metadata snapshot: the parsed header fields and the trace count,
    /// which is the length of the trace index.
    pub fn get_metadata(&self) -> (m: SegyMetadata)
        requires
            view_wf(self@),
        ensures
            m.sample_interval == self@.header.sample_interval,
            m.samples_per_trace == self@.header.samples_per_trace,
            m.bytes_per_sample == self@.header.bytes_per_sample,
            m.extended_text_header_count == self@.header.extended_text_header_count,
            m.data_format == self@.header.data_format,
            m.byte_order == self@.header.byte_order,
            m.trace_count == self@.index.len(),
    {
        SegyMetadata {
            sample_interval: self.b_header.sample_interval,
            samples_per_trace: self.b_header.samples_per_trace,
            bytes_per_sample: self.b_header.bytes_per_sample,
            extended_text_header_count: self.b_header.extended_text_header_count,
            data_format: self.b_header.data_format,
            byte_order: self.b_header.byte_order,
            trace_count: self.trace_index.len(),
        }
    }

    /// The textual header, transliterated, trimmed and reformatted as
    /// `read_text_header` states over the file's first 3200 bytes.
    pub fn get_header(&self) -> (r: Result<String, SegyError>)
        requires
            view_wf(self@),
        ensures
            ({
                let a = header_ascii(self@.bytes.take(3200));
                let t = a.take(trimmed_len(a));
                &&& r matches Ok(s) ==> is_ascii_bytes(t) && s@ == text_chars(t)
                &&& r is Err ==> !is_ascii_bytes(t) && r == Err::<String, SegyError>(
                    SegyError::EncodingFailure,
                )
            }),
    {
        read_text_header(self.data.as_slice())
    }

    /// Reads one trace by its 1-based number: locates it through the index,
    /// re-reads the per-trace sample-count override (the header's
    /// samples-per-trace may not apply uniformly), slices the raw sample
    /// bytes and decodes them. Fails on trace number 0, on a number beyond
    /// the indexed count, and on the one undecodable format; succeeds on
    /// every other input.
    pub fn get_trace_data(&self, trace_number: u32) -> (r: Result<TraceData, SegyError>)
        requires
            view_wf(self@),
        ensures
            get_trace_post(self@, trace_number, r),
    {
        if trace_number == 0 {
            return Err(SegyError::InvalidArgument);
        }
        if trace_number as usize > self.trace_index.len() {
            return Err(
                SegyError::TraceOutOfRange {
                    requested: trace_number,
                    trace_count: self.trace_index.len(),
                },
            );
        }
        let target: usize = (trace_number - 1) as usize;
        let ghost offs = trace_offsets(self.data@, self.b_header);
        proof {
            lemma_trace_offsets_wf(self.data@, self.b_header);
            let ti = target as int;
            assert(self.trace_index@.map_values(|v: u64| v as int)[ti] == offs[ti]);
            assert(self.trace_index@[ti] as int == offs[ti]);
            assert(offs[ti] + record_bytes(self.data@, self.b_header, offs[ti])
                <= self.data@.len());
        }
        let dlen: usize = self.data.len();
        let trace_start_wide: u64 = self.trace_index[target];
        assert(trace_start_wide as int + 240 <= dlen as int);
        let trace_start: usize = trace_start_wide as usize;
        let ov: i16 = crate::codec::read_i16(
            self.data.as_slice(),
            trace_start + 114,
            self.b_header.byte_order,
        );
        let samples: u64 = if ov == 0 {
            #[verifier::truncate] (self.b_header.samples_per_trace as u64)
        } else {
            #[verifier::truncate] (ov as u64)
        };
        assert(samples == samples_at(self.data@, self.b_header, trace_start as int));
        let bps: u64 = self.b_header.bytes_per_sample as u64;
        let data_bytes: u64 = samples * bps;
        let data_start: usize = trace_start + 240;
        let data_end: usize = data_start + (data_bytes as usize);
        let raw: &[u8] = vstd::slice::slice_subrange(self.data.as_slice(), data_start, data_end);
        assert(raw@ == trace_samples_bytes(self.data@, self.b_header, trace_start as int));
        decode_trace(raw, self.b_header.data_format, self.b_header.byte_order)
    }
}

/// The metadata's trace count is the length of the index the one-pass walk
/// builds, and that index is sound: every entry is at or after the computed
/// start of the trace region, the entries are strictly increasing, and every
/// indexed record lies within the file.
pub proof fn lemma_index_sound(v: SegyView)
    requires
        view_wf(v),
    ensures
        v.index.map_values(|u: u64| u as int) == trace_offsets(v.bytes, v.header),
        offsets_wf(
            v.bytes,
            v.header,
            v.index.map_values(|u: u64| u as int),
            start_of_data(v.header),
        ),
{
    lemma_trace_offsets_wf(v.bytes, v.header);
}

/// Reading the same trace twice gives bit-identical results: the reading
/// contract admits exactly one outcome for a given file view and trace
/// number, sample by sample.
pub proof fn lemma_get_trace_idempotent(
    v: SegyView,
    trace_number: u32,
    r1: Result<TraceData, SegyError>,
    r2: Result<TraceData, SegyError>,
)
    requires
        get_trace_post(v, trace_number, r1),
        get_trace_post(v, trace_number, r2),
    ensures
        trace_result_eq(r1, r2),
{
    if trace_number != 0 && trace_number as int <= v.index.len() as int {
        lemma_decode_deterministic(
            trace_samples_bytes(v.bytes, v.header, v.index[trace_number as int - 1] as int),
            v.header.data_format,
            v.header.byte_order,
            r1,
            r2,
        );
    }
}

} // verus!
