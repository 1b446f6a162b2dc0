//! The one-pass trace indexing walk.
//!
//! Trace length can vary per record: each 240-byte trace header may override
//! the file-wide sample count, so the byte offset of trace `n` cannot be
//! computed from the binary header alone. One forward scan discovers every
//! record: read the override, compute the record's size, check it stays
//! within the file, and advance. A trailing record that would overrun the
//! file is dropped silently; it marks the end of data, not an error.

use vstd::prelude::*;

use crate::codec::{i16_of, read_i16};
use crate::header::BinaryHeader;

verus! {

/// The per-trace sample-count override stored at offset 114 of the trace
/// header that starts at `off`.
pub open spec fn override_count(data: Seq<u8>, hdr: BinaryHeader, off: int) -> i16 {
    i16_of(hdr.byte_order, data[off + 114], data[off + 115])
}

/// The sample count of the trace whose header starts at `off`: the per-trace
/// override when it is nonzero, the binary header's samples-per-trace
/// otherwise. Both counts are signed 16-bit fields reinterpreted as wide
/// unsigned values, so a negative count becomes a size no file can hold and
/// the record is dropped as overrunning.
pub open spec fn samples_at(data: Seq<u8>, hdr: BinaryHeader, off: int) -> u64 {
    if override_count(data, hdr, off) == 0 {
        hdr.samples_per_trace as u64
    } else {
        override_count(data, hdr, off) as u64
    }
}

/// How many bytes the trace record at `off` occupies: the 240-byte trace
/// header plus its samples.
pub open spec fn record_bytes(data: Seq<u8>, hdr: BinaryHeader, off: int) -> int {
    240 + samples_at(data, hdr, off) * hdr.bytes_per_sample
}

/// Where the trace region starts: after the textual header (3200 bytes), the
/// binary header (400 bytes) and the extended textual headers (3200 bytes
/// each).
pub open spec fn start_of_data(hdr: BinaryHeader) -> int {
    3600 + hdr.extended_text_header_count * 3200
}

/// The byte offsets of the trace records reachable from `off`: record after
/// record until fewer than 240 bytes remain or the next record would overrun
/// the file. (The middle guard can only fire for an ill-formed header whose
/// bytes-per-sample is negative; it bounds the walk in every case.)
pub open spec fn offsets_from(data: Seq<u8>, hdr: BinaryHeader, off: int) -> Seq<int>
    decreases data.len() - off,
{
    if off + 240 > data.len() {
        Seq::empty()
    } else if record_bytes(data, hdr, off) < 240 {
        Seq::empty()
    } else if off + record_bytes(data, hdr, off) > data.len() {
        Seq::empty()
    } else {
        seq![off] + offsets_from(data, hdr, off + record_bytes(data, hdr, off))
    }
}

/// The trace index of a whole file: one entry per trace record, in file
/// order, each pointing at the record's 240-byte trace header. A negative
/// extended-header count puts the start of data beyond any real file, so no
/// trace is indexed.
pub open spec fn trace_offsets(data: Seq<u8>, hdr: BinaryHeader) -> Seq<int> {
    if hdr.extended_text_header_count < 0 {
        Seq::empty()
    } else {
        offsets_from(data, hdr, start_of_data(hdr))
    }
}

/// Walks the trace region once and returns the byte offset of every trace
/// record, in file order.
pub fn build_trace_index(data: &[u8], hdr: &BinaryHeader) -> (r: Vec<u64>)
    requires
        hdr.wf(),
    ensures
        r@.map_values(|v: u64| v as int) == trace_offsets(data@, *hdr),
{
    let mut index: Vec<u64> = Vec::new();
    if hdr.extended_text_header_count < 0 {
        assert(index@.map_values(|v: u64| v as int) =~= trace_offsets(data@, *hdr));
        return index;
    }
    let len: usize = data.len();
    let ethc: usize = hdr.extended_text_header_count as usize;
    let mut offset: usize = 3600 + ethc * 3200;
    assert(offset as int == start_of_data(*hdr));
    loop
        invariant
            hdr.wf(),
            len == data@.len(),
            trace_offsets(data@, *hdr) =~= index@.map_values(|v: u64| v as int) + offsets_from(
                data@,
                *hdr,
                offset as int,
            ),
        ensures
            index@.map_values(|v: u64| v as int) == trace_offsets(data@, *hdr),
        decreases len + 240 - offset,
    {
        if offset > len || len - offset < 240 {
            assert(offsets_from(data@, *hdr, offset as int) =~= Seq::<int>::empty());
            assert(index@.map_values(|v: u64| v as int) + Seq::<int>::empty() =~= index@.map_values(
                |v: u64| v as int,
            ));
            break;
        }
        let ov: i16 = read_i16(data, offset + 114, hdr.byte_order);
        let samples: u64 = if ov == 0 {
            #[verifier::truncate] (hdr.samples_per_trace as u64)
        } else {
            #[verifier::truncate] (ov as u64)
        };
        assert(samples == samples_at(data@, *hdr, offset as int));
        let bps: u64 = hdr.bytes_per_sample as u64;
        let avail: u64 = (len - offset - 240) as u64;
        proof {
            assert((samples as int) * (bps as int) <= (u64::MAX as int) * 4 && 0 <= (samples as int)
                * (bps as int)) by (nonlinear_arith)
                requires
                    0 <= samples <= u64::MAX,
                    0 <= bps <= 4,
            ;
        }
        if (samples as u128) * (bps as u128) > (avail as u128) {
            assert(offset as int + record_bytes(data@, *hdr, offset as int) > len);
            assert(offsets_from(data@, *hdr, offset as int) =~= Seq::<int>::empty());
            assert(index@.map_values(|v: u64| v as int) + Seq::<int>::empty() =~= index@.map_values(
                |v: u64| v as int,
            ));
            break;
        }
        let data_bytes: u64 = samples * bps;
        let ghost prev = index@;
        let ghost old_off = offset as int;
        let ghost rb = record_bytes(data@, *hdr, offset as int);
        assert(rb == 240 + data_bytes);
        index.push(offset as u64);
        assert(index@.map_values(|v: u64| v as int) =~= prev.map_values(|v: u64| v as int) + seq![
            offset as int,
        ]);
        assert(offsets_from(data@, *hdr, old_off) =~= seq![old_off] + offsets_from(
            data@,
            *hdr,
            old_off + rb,
        ));
        offset = offset + 240 + (data_bytes as usize);
        assert(offset as int == old_off + rb);
        assert(trace_offsets(data@, *hdr) =~= index@.map_values(|v: u64| v as int) + offsets_from(
            data@,
            *hdr,
            offset as int,
        ));
    }
    index
}

/// Estimates the trace count from the file size alone, assuming every trace
/// holds the binary header's samples-per-trace: the size of the trace region
/// divided by the uniform record size. An estimate only; the trace index is
/// the authority.
pub fn approx_trace_number(file_size: u64, hdr: &BinaryHeader) -> (r: u64)
    requires
        hdr.wf(),
        file_size >= 3600,
        hdr.samples_per_trace >= 0,
    ensures
        r as int == (file_size - 3600) as int / (240 + hdr.bytes_per_sample
            * hdr.samples_per_trace),
{
    proof {
        assert((hdr.bytes_per_sample as int) * (hdr.samples_per_trace as int) <= 4 * 32767)
            by (nonlinear_arith)
            requires
                0 <= hdr.bytes_per_sample <= 4,
                0 <= hdr.samples_per_trace <= 32767,
        ;
    }
    let trace_size: u64 = 240 + (hdr.bytes_per_sample as u64) * (hdr.samples_per_trace as u64);
    (file_size - 3600) / trace_size
}

/// Well-formedness of a run of index entries with respect to the file: every
/// entry lies at or after `lo`, every indexed record fits within the file,
/// consecutive entries are exactly one record apart, and the entries are
/// strictly increasing.
pub open spec fn offsets_wf(data: Seq<u8>, hdr: BinaryHeader, s: Seq<int>, lo: int) -> bool {
    &&& forall|i: int|
        0 <= i < s.len() ==> lo <= #[trigger] s[i] && s[i] + 240 <= data.len() && s[i]
            + record_bytes(data, hdr, s[i]) <= data.len()
    &&& forall|i: int|
        0 <= i && i + 1 < s.len() ==> #[trigger] s[i] + record_bytes(data, hdr, s[i]) == s[i + 1]
    &&& forall|i: int, j: int| 0 <= i < j < s.len() ==> #[trigger] s[i] + 240 <= #[trigger] s[j]
}

proof fn lemma_offsets_from_wf(data: Seq<u8>, hdr: BinaryHeader, off: int)
    requires
        hdr.wf(),
    ensures
        offsets_wf(data, hdr, offsets_from(data, hdr, off), off),
    decreases data.len() - off,
{
    let s = offsets_from(data, hdr, off);
    if off + 240 > data.len() || record_bytes(data, hdr, off) < 240 || off + record_bytes(
        data,
        hdr,
        off,
    ) > data.len() {
    } else {
        let rb = record_bytes(data, hdr, off);
        let tail = offsets_from(data, hdr, off + rb);
        lemma_offsets_from_wf(data, hdr, off + rb);
        assert(s =~= seq![off] + tail);
        assert forall|i: int| 0 <= i && i + 1 < s.len() implies #[trigger] s[i] + record_bytes(
            data,
            hdr,
            s[i],
        ) == s[i + 1] by {
            if i == 0 {
                assert(s[0] == off && s[1] == tail[0]);
                assert(off + rb <= tail[0]);
                assert(tail[0] + 240 <= data.len());
                assert(tail[0] == off + rb || (exists|k: int| 0 <= k < tail.len() && tail[k] == s[i
                    + 1]));
                assert(tail[0] == off + rb) by {
                    assert(offsets_from(data, hdr, off + rb).len() > 0);
                    assert(offsets_from(data, hdr, off + rb)[0] == off + rb);
                }
            } else {
                assert(s[i] == tail[i - 1] && s[i + 1] == tail[i]);
            }
        }
    }
}

/// Every entry of the trace index lies at or after the computed start of the
/// trace region; each indexed record, trace header and samples both, lies
/// within the file; consecutive entries are exactly one record apart; and the
/// entries are strictly increasing.
pub proof fn lemma_trace_offsets_wf(data: Seq<u8>, hdr: BinaryHeader)
    requires
        hdr.wf(),
    ensures
        offsets_wf(data, hdr, trace_offsets(data, hdr), start_of_data(hdr)),
{
    if hdr.extended_text_header_count >= 0 {
        lemma_offsets_from_wf(data, hdr, start_of_data(hdr));
    }
}

proof fn lemma_offsets_from_truncated(data: Seq<u8>, hdr: BinaryHeader, off: int, cut: int)
    requires
        hdr.wf(),
        0 <= off,
        offsets_from(data, hdr, off).len() >= 1,
        cut <= data.len(),
        ({
            let s = offsets_from(data, hdr, off);
            let last = s[s.len() - 1];
            last < cut < last + record_bytes(data, hdr, last)
        }),
    ensures
        offsets_from(data.take(cut), hdr, off) == offsets_from(data, hdr, off).drop_last(),
    decreases data.len() - off,
{
    let s = offsets_from(data, hdr, off);
    let last = s[s.len() - 1];
    let rb = record_bytes(data, hdr, off);
    let tail = offsets_from(data, hdr, off + rb);
    assert(s =~= seq![off] + tail);
    lemma_offsets_from_wf(data, hdr, off);
    assert(off <= last);
    let cap = data.take(cut);
    assert(cap.len() == cut);
    if tail.len() == 0 {
        assert(last == off);
        if off + 240 > cut {
            assert(offsets_from(cap, hdr, off) =~= Seq::<int>::empty());
        } else {
            assert(cap[off + 114] == data[off + 114] && cap[off + 115] == data[off + 115]);
            assert(record_bytes(cap, hdr, off) == rb);
            assert(off + rb > cut);
            assert(offsets_from(cap, hdr, off) =~= Seq::<int>::empty());
        }
        assert(s.drop_last() =~= Seq::<int>::empty());
    } else {
        lemma_offsets_from_wf(data, hdr, off + rb);
        assert(last == tail[tail.len() - 1]);
        assert(off + rb <= last);
        assert(off + 240 <= off + rb < cut);
        assert(cap[off + 114] == data[off + 114] && cap[off + 115] == data[off + 115]);
        assert(record_bytes(cap, hdr, off) == rb);
        lemma_offsets_from_truncated(data, hdr, off + rb, cut);
        assert(offsets_from(cap, hdr, off) =~= seq![off] + offsets_from(cap, hdr, off + rb));
        assert(offsets_from(cap, hdr, off) =~= seq![off] + tail.drop_last());
        assert(s.drop_last() =~= seq![off] + tail.drop_last());
    }
}

/// A file truncated inside its final trace record indexes exactly one trace
/// fewer than the whole file with otherwise identical content: the incomplete
/// trailing record is dropped, and the earlier entries are unchanged.
pub proof fn lemma_truncated_file_drops_last_trace(data: Seq<u8>, hdr: BinaryHeader, cut: int)
    requires
        hdr.wf(),
        trace_offsets(data, hdr).len() >= 1,
        cut <= data.len(),
        ({
            let s = trace_offsets(data, hdr);
            let last = s[s.len() - 1];
            last < cut < last + record_bytes(data, hdr, last)
        }),
    ensures
        trace_offsets(data.take(cut), hdr) == trace_offsets(data, hdr).drop_last(),
        trace_offsets(data.take(cut), hdr).len() == trace_offsets(data, hdr).len() - 1,
{
    lemma_offsets_from_truncated(data, hdr, start_of_data(hdr), cut);
}

/// A zero per-trace override falls back to the binary header's
/// samples-per-trace; a nonzero override takes precedence. Indexing reads
/// the count through `record_bytes` and decoding through the facade's
/// contract, both via `samples_at`, so the rule binds both.
pub proof fn lemma_override_fallback(data: Seq<u8>, hdr: BinaryHeader, off: int)
    ensures
        override_count(data, hdr, off) == 0 ==> samples_at(data, hdr, off)
            == hdr.samples_per_trace as u64,
        override_count(data, hdr, off) != 0 ==> samples_at(data, hdr, off) == override_count(
            data,
            hdr,
            off,
        ) as u64,
{
}

} // verus!
