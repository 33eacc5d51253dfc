//! Loading a byte stream into document text.
//!
//! Decoding precedence: valid UTF-8 is used as it is; otherwise a UTF-16LE
//! byte-order mark (`0xFF 0xFE`) selects a UTF-16LE decode of the remaining
//! bytes; otherwise the bytes are decoded as UTF-8 lossily, with the
//! replacement character standing in for invalid sequences.  After decoding,
//! every CRLF line ending is normalized to a bare line feed.
use vstd::prelude::*;

use crate::buffer::{Buffer, MAX_CHARS};
use crate::textmodel::{lemma_normalize_len, lemma_normalize_no_cr_identity, normalize_crlf};
use vstd::slice::slice_subrange;
use vstd::string::StrSliceExecFns;
use vstd::utf8::{
    decode_utf8, decode_utf8_encode_utf8, encode_utf8, length_of_first_scalar, pop_first_scalar,
    valid_utf8,
};

verus! {

/// What the UTF-16LE decode of a byte stream yields: two bytes per code
/// unit, surrogate pairs joined, malformed sequences replaced by the
/// replacement character.  A function of the bytes alone.
pub uninterp spec fn utf16le_chars(bytes: Seq<u8>) -> Seq<char>;

/// What the lossy UTF-8 decode of a byte stream yields: valid sequences
/// decoded, invalid ones replaced by the replacement character.  A function
/// of the bytes alone.
pub uninterp spec fn utf8_lossy_chars(bytes: Seq<u8>) -> Seq<char>;

/// Relies on String::from_utf8: it succeeds exactly on valid UTF-8 input
/// and then yields its decoding.
#[verifier::external_body]
fn try_utf8(bytes: &Vec<u8>) -> (r: Option<String>)
    ensures
        r is Some <==> valid_utf8(bytes@),
        r matches Some(s) ==> s@ == decode_utf8(bytes@),
{
    match String::from_utf8(bytes.clone()) {
        Ok(s) => Some(s),
        Err(_) => None,
    }
}

/// Relies on encoding_rs's UTF-16LE decode: the characters are a function
/// of the bytes alone, and every character consumes at least one byte.
#[verifier::external_body]
fn decode_utf16le(bytes: &[u8]) -> (r: String)
    ensures
        r@ == utf16le_chars(bytes@),
        r@.len() <= bytes@.len(),
{
    let (cow, _, _) = encoding_rs::UTF_16LE.decode(bytes);
    cow.into_owned()
}

/// Relies on String::from_utf8_lossy: the characters are a function of the
/// bytes alone, and every character consumes at least one byte.
#[verifier::external_body]
fn decode_lossy(bytes: &Vec<u8>) -> (r: String)
    ensures
        r@ == utf8_lossy_chars(bytes@),
        r@.len() <= bytes@.len(),
{
    String::from_utf8_lossy(bytes).into_owned()
}

/// Relies on String::push: appends one character.
#[verifier::external_body]
pub(crate) fn push_char(s: &mut String, c: char)
    ensures
        final(s)@ == old(s)@.push(c),
{
    s.push(c)
}

/// The characters a byte stream decodes to, by the loading precedence:
/// UTF-8 when valid, UTF-16LE behind its byte-order mark, lossy UTF-8 last.
pub open spec fn decoded_chars(bytes: Seq<u8>) -> Seq<char> {
    if valid_utf8(bytes) {
        decode_utf8(bytes)
    } else if bytes.len() >= 2 && bytes[0] == 0xff && bytes[1] == 0xfe {
        utf16le_chars(bytes.skip(2))
    } else {
        utf8_lossy_chars(bytes)
    }
}

/// The document text a byte stream loads to: its decoding, line endings
/// normalized.
pub open spec fn loaded_text(bytes: Seq<u8>) -> Seq<char> {
    normalize_crlf(decoded_chars(bytes))
}

/// A valid UTF-8 stream never decodes to more characters than bytes.
proof fn lemma_decode_utf8_len(bytes: Seq<u8>)
    requires
        valid_utf8(bytes),
    ensures
        decode_utf8(bytes).len() <= bytes.len(),
    decreases bytes.len(),
{
    if bytes.len() != 0 {
        assert(1 <= length_of_first_scalar(bytes));
        lemma_decode_utf8_len(pop_first_scalar(bytes));
    }
}

/// Decodes a loaded byte stream by the loading precedence.
pub fn decode_bytes(bytes: &Vec<u8>) -> (s: String)
    ensures
        s@ == decoded_chars(bytes@),
        s@.len() <= bytes@.len(),
{
    match try_utf8(bytes) {
        Some(s) => {
            proof {
                lemma_decode_utf8_len(bytes@);
            }
            s
        },
        None => {
            if bytes.len() >= 2 && bytes[0] == 0xff && bytes[1] == 0xfe {
                let rest = slice_subrange(bytes.as_slice(), 2, bytes.len());
                decode_utf16le(rest)
            } else {
                decode_lossy(bytes)
            }
        },
    }
}

/// Normalizes line endings: every `"\r\n"` becomes `"\n"`, character by
/// character in one pass.
pub fn normalize_line_endings(s: &str) -> (r: String)
    ensures
        r@ == normalize_crlf(s@),
{
    let n = s.unicode_len();
    let mut out = String::new();
    let mut i: usize = 0;
    proof {
        assert(s@.skip(0) =~= s@);
        assert(out@ + normalize_crlf(s@) =~= normalize_crlf(s@));
    }
    while i < n
        invariant
            i <= n,
            n == s@.len(),
            out@ + normalize_crlf(s@.skip(i as int)) == normalize_crlf(s@),
        decreases n - i,
    {
        let c = s.get_char(i);
        let ghost pre = out@;
        let ghost tail = s@.skip(i as int);
        if c == '\r' && i + 1 < n && s.get_char(i + 1) == '\n' {
            proof {
                assert(tail[0] == '\r');
                assert(tail[1] == s@[i + 1]);
                assert(tail.skip(2) =~= s@.skip(i + 2));
                assert(normalize_crlf(tail) == seq!['\n'] + normalize_crlf(s@.skip(i + 2)));
                let next = s@.skip(i + 1);
                assert(next[0] == '\n');
                assert(next.skip(1) =~= s@.skip(i + 2));
                assert(normalize_crlf(next) == seq![next[0]] + normalize_crlf(s@.skip(i + 2)));
                assert(seq![next[0]] =~= seq!['\n']);
                assert(normalize_crlf(tail) == normalize_crlf(next));
            }
        } else {
            push_char(&mut out, c);
            proof {
                assert(tail[0] == c);
                assert(tail.skip(1) =~= s@.skip(i + 1));
                if tail.len() >= 2 && tail[0] == '\r' && tail[1] == '\n' {
                    assert(s@[i + 1] == '\n');
                    assert(false);
                }
                assert(normalize_crlf(tail) == seq![c] + normalize_crlf(s@.skip(i + 1)));
                assert(out@ =~= pre + seq![c]);
                assert((pre + seq![c]) + normalize_crlf(s@.skip(i + 1)) =~= pre + (seq![c]
                    + normalize_crlf(s@.skip(i + 1))));
            }
        }
        i = i + 1;
    }
    proof {
        assert(s@.skip(n as int) =~= Seq::<char>::empty());
        assert(normalize_crlf(Seq::<char>::empty()) == Seq::<char>::empty());
        assert(out@ + Seq::<char>::empty() =~= out@);
    }
    out
}

impl Buffer {
    /// Builds a buffer from the raw bytes of a file: decodes them by the
    /// loading precedence, normalizes line endings, and starts with the
    /// cursor and viewport origin at zero and nothing unsaved.
    pub fn from_bytes(
        file_path: String,
        bytes: &Vec<u8>,
        visual_width: usize,
        visual_height: usize,
    ) -> (b: Buffer)
        requires
            bytes@.len() <= MAX_CHARS,
        ensures
            b.wf(),
            b.content() == loaded_text(bytes@),
            b.file_path@ == file_path@,
            b.visual_width == visual_width,
            b.visual_height == visual_height,
            b.visual_origin_row == 0,
            b.visual_origin_col == 0,
            b.cursor_idx == 0,
            b.dirty == false,
    {
        let decoded = decode_bytes(bytes);
        let normalized = normalize_line_endings(decoded.as_str());
        proof {
            lemma_normalize_len(decoded@);
        }
        Buffer::from_text(file_path, normalized.as_str(), visual_width, visual_height)
    }
}

/// Law: a byte stream that begins with the UTF-16LE byte-order mark is
/// never valid UTF-8 — `0xFF` is no UTF-8 leading byte — so such a stream
/// always decodes as UTF-16LE text, the mark excluded.
pub proof fn lemma_bom_selects_utf16(bytes: Seq<u8>)
    requires
        bytes.len() >= 2,
        bytes[0] == 0xff,
        bytes[1] == 0xfe,
    ensures
        !valid_utf8(bytes),
        decoded_chars(bytes) == utf16le_chars(bytes.skip(2)),
{
    assert(!vstd::utf8::valid_leading_and_continuation_bytes_first_codepoint(bytes));
}

/// Law: a byte stream of valid UTF-8 whose text holds no carriage return —
/// one with line-feed endings only — loads to exactly its decoded text, and
/// saving that text re-encodes it to the original bytes.
pub proof fn lemma_load_save_round_trip(bytes: Seq<u8>)
    requires
        valid_utf8(bytes),
        forall|i: int| 0 <= i < decode_utf8(bytes).len() ==> decode_utf8(bytes)[i] != '\r',
    ensures
        loaded_text(bytes) == decode_utf8(bytes),
        encode_utf8(loaded_text(bytes)) == bytes,
{
    lemma_normalize_no_cr_identity(decode_utf8(bytes));
    decode_utf8_encode_utf8(bytes);
}

} // verus!
