//! The 3200-byte textual header.
//!
//! The textual header is padded to its full size with spaces: an EBCDIC file
//! pads with the EBCDIC space 0x40, an ASCII file with the ASCII space 0x20,
//! so the final byte tells the encodings apart. An EBCDIC block is
//! transliterated byte for byte; then trailing NUL bytes are trimmed and the
//! text is reformatted into 80-column lines joined by newlines, the way the
//! header is conventionally displayed.

use vstd::prelude::*;

use ebcdic::ebcdic::Ebcdic;

use crate::SegyError;

verus! {

/// The ASCII transliteration of EBCDIC bytes, one output byte per input
/// byte. The exact table is the codec's own; contracts use it by name only.
pub uninterp spec fn ascii_of_ebcdic(s: Seq<u8>) -> Seq<u8>;

/// Relies on ebcdic::ebcdic::Ebcdic::ebcdic_to_ascii: a fixed per-byte table
/// map from EBCDIC to ASCII that writes exactly one output byte per input
/// byte (non-printable results replaced by ASCII space). The result depends
/// on the input bytes alone.
#[verifier::external_body]
fn ebcdic_to_ascii(src: &[u8]) -> (r: Vec<u8>)
    ensures
        r@ == ascii_of_ebcdic(src@),
        r@.len() == src@.len(),
{
    let mut result = vec![0u8; src.len()];
    Ebcdic::ebcdic_to_ascii(src, &mut result, src.len(), true, false);
    result
}

/// Relies on String::push: appends exactly the one character to the string.
#[verifier::external_body]
fn push_char(s: &mut String, c: char)
    ensures
        final(s)@ == old(s)@.push(c),
{
    s.push(c);
}

/// The length of `s` once trailing NUL bytes are removed: the position just
/// after the last nonzero byte, 0 when every byte is zero.
pub open spec fn trimmed_len(s: Seq<u8>) -> int
    decreases s.len(),
{
    if s.len() == 0 {
        0
    } else if s[s.len() - 1] != 0 {
        s.len() as int
    } else {
        trimmed_len(s.drop_last())
    }
}

/// True of bytes that are plain ASCII.
pub open spec fn is_ascii_bytes(s: Seq<u8>) -> bool {
    forall|i: int| 0 <= i < s.len() ==> s[i] < 0x80
}

/// How many characters the displayed text of `n` bytes has: the bytes plus
/// one newline between consecutive 80-byte lines.
pub open spec fn display_len(n: int) -> int {
    if n <= 0 {
        0
    } else {
        n + (n - 1) / 80
    }
}

/// The displayed text of the trimmed header bytes: 80-column lines joined by
/// a newline. Each full block of 81 output characters is 80 text characters
/// and one separator, so position k holds a newline exactly when k % 81 ==
/// 80, and otherwise the byte at k less the k / 81 newlines before it.
pub open spec fn text_chars(s: Seq<u8>) -> Seq<char> {
    Seq::new(
        display_len(s.len() as int) as nat,
        |k: int|
            if k % 81 == 80 {
                '\n'
            } else {
                s[k - k / 81] as char
            },
    )
}

/// The header block as ASCII bytes: transliterated when the final pad byte
/// is the EBCDIC space, taken as it stands otherwise.
pub open spec fn header_ascii(block: Seq<u8>) -> Seq<u8>
    recommends
        block.len() == 3200,
{
    if block[3199] == 0x40 {
        ascii_of_ebcdic(block)
    } else {
        block
    }
}

/// A header block whose final pad byte is the EBCDIC space is transliterated
/// before any trimming; a block with any other final byte, the ASCII space or
/// NUL among them, is taken as it stands.
pub proof fn lemma_encoding_detection(block: Seq<u8>)
    ensures
        block[3199] == 0x40 ==> header_ascii(block) == ascii_of_ebcdic(block),
        block[3199] != 0x40 ==> header_ascii(block) == block,
{
}

/// The position just after the last nonzero byte.
fn trimmed_end(data: &[u8]) -> (r: usize)
    ensures
        r == trimmed_len(data@),
        r <= data@.len(),
{
    let mut j: usize = data.len();
    assert(data@.take(j as int) =~= data@);
    while j > 0 && data[j - 1] == 0
        invariant
            j <= data@.len(),
            trimmed_len(data@) == trimmed_len(data@.take(j as int)),
        decreases j,
    {
        proof {
            assert(data@.take(j as int).drop_last() =~= data@.take(j as int - 1));
        }
        j = j - 1;
    }
    proof {
        if j == 0 {
            assert(data@.take(0) =~= Seq::<u8>::empty());
        }
    }
    j
}

/// Reads the textual header from the first 3200 bytes of `data`: detects
/// EBCDIC by the final pad byte and transliterates if so, trims trailing NUL
/// bytes, and reformats the rest into 80-column lines joined by newlines.
/// Fails exactly when a byte of the trimmed text is not ASCII.
pub fn read_text_header(data: &[u8]) -> (r: Result<String, SegyError>)
    requires
        data@.len() >= 3200,
    ensures
        ({
            let a = header_ascii(data@.take(3200));
            let t = a.take(trimmed_len(a));
            &&& r matches Ok(s) ==> is_ascii_bytes(t) && s@ == text_chars(t)
            &&& r is Err ==> !is_ascii_bytes(t) && r == Err::<String, SegyError>(
                SegyError::EncodingFailure,
            )
        }),
{
    let block: &[u8] = vstd::slice::slice_subrange(data, 0, 3200);
    let ascii: Vec<u8> = if block[3199] == 0x40 {
        ebcdic_to_ascii(block)
    } else {
        vstd::slice::slice_to_vec(block)
    };
    assert(ascii@ == header_ascii(data@.take(3200)));
    let end: usize = trimmed_end(ascii.as_slice());
    let ghost t = ascii@.take(end as int);
    let mut out: String = String::new();
    let mut i: usize = 0;
    assert(out@ =~= text_chars(t.take(0)));
    while i < end
        invariant
            data@.len() >= 3200,
            ascii@ == header_ascii(data@.take(3200)),
            i <= end,
            end <= ascii@.len(),
            end == trimmed_len(ascii@),
            t == ascii@.take(end as int),
            forall|j: int| 0 <= j < i ==> ascii@[j] < 0x80,
            out@ == text_chars(t.take(i as int)),
        decreases end - i,
    {
        let b: u8 = ascii[i];
        if b >= 0x80 {
            proof {
                assert(t[i as int] == ascii@[i as int]);
                assert(!is_ascii_bytes(t)) by {
                    assert(t[i as int] >= 0x80);
                }
            }
            return Err(SegyError::EncodingFailure);
        }
        if i > 0 && i % 80 == 0 {
            push_char(&mut out, '\n');
        }
        push_char(&mut out, b as char);
        proof {
            lemma_text_chars_step(t, i as int);
            assert(out@ =~= text_chars(t.take(i as int + 1)));
        }
        i = i + 1;
    }
    assert(t.take(end as int) =~= t);
    Ok(out)
}

/// Appending the byte at position `i` extends the displayed text by that
/// byte's character, preceded by a newline exactly at each 80-byte boundary.
proof fn lemma_text_chars_step(t: Seq<u8>, i: int)
    requires
        0 <= i < t.len(),
    ensures
        i == 0 || i % 80 != 0 ==> text_chars(t.take(i + 1)) =~= text_chars(t.take(i)).push(
            t[i] as char,
        ),
        i > 0 && i % 80 == 0 ==> text_chars(t.take(i + 1)) =~= text_chars(t.take(i)).push(
            '\n',
        ).push(t[i] as char),
{
    let m = i / 80;
    let rr = i % 80;
    assert(i == 80 * m + rr);
    if i == 0 {
        assert(display_len(1) == 1);
        assert(text_chars(t.take(1)).len() == 1);
    } else if rr == 0 {
        assert((i - 1) / 80 == m - 1) by {
            assert(i - 1 == 80 * (m - 1) + 79);
        }
        assert(display_len(i) == 81 * m - 1);
        assert(display_len(i + 1) == 81 * m + 1) by {
            assert(i / 80 == m);
        }
        assert((81 * m - 1) % 81 == 80) by {
            assert(81 * m - 1 == 81 * (m - 1) + 80);
        }
        assert((81 * m) % 81 == 0 && (81 * m) / 81 == m);
    } else {
        assert((i - 1) / 80 == m) by {
            assert(i - 1 == 80 * m + (rr - 1));
        }
        assert(display_len(i) == 81 * m + rr);
        assert(display_len(i + 1) == 81 * m + rr + 1) by {
            assert(i / 80 == m);
        }
        assert((81 * m + rr) % 81 == rr && (81 * m + rr) / 81 == m) by {
            assert(81 * m + rr == 81 * m + rr);
        }
    }
}

} // verus!
