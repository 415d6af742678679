//! Conversions between editor positions and source offsets, and between
//! file paths and `file://` URIs.

use crate::frontend::ast::Span;
use crate::frontend::source::line_index::{is_line_of, lemma_line_of_unique, lemma_line_starts_wf, line_starts_of};
use crate::frontend::source::SourceFile;
use vstd::prelude::*;
use vstd::string::StringSliceAdditionalSpecFns;
use vstd::utf8::*;

verus! {

/// A zero-based line and UTF-16 column, as the editor protocol counts them.
#[derive(Debug, Clone, Copy, PartialEq, Eq, Structural)]
pub struct LspPosition {
    pub line: u32,
    pub character: u32,
}

/// A range between two editor positions.
#[derive(Debug, Clone, Copy, PartialEq, Eq, Structural)]
pub struct LspRange {
    pub start: LspPosition,
    pub end: LspPosition,
}

/// Bytes written as themselves in a URI: ASCII letters and digits, `/`, `.`, `-` and `_`.
pub open spec fn is_unreserved(b: u8) -> bool {
    (0x30 <= b <= 0x39) || (0x41 <= b <= 0x5a) || (0x61 <= b <= 0x7a) || b == 0x2f || b == 0x2e || b == 0x2d
        || b == 0x5f
}

/// The upper-case hexadecimal digit of `d` (below 16), as a byte.
pub open spec fn hex_digit(d: int) -> u8 {
    if d < 10 {
        (d + 0x30) as u8
    } else {
        (d - 10 + 0x41) as u8
    }
}

/// The value of a hexadecimal digit byte, either case.
pub open spec fn hex_digit_value(b: u8) -> Option<u8> {
    if 0x30 <= b <= 0x39 {
        Some((b - 0x30) as u8)
    } else if 0x61 <= b <= 0x66 {
        Some((b - 0x61 + 10) as u8)
    } else if 0x41 <= b <= 0x46 {
        Some((b - 0x41 + 10) as u8)
    } else {
        None
    }
}

/// How one byte is written in a URI: itself when unreserved, else `%` and
/// two upper-case hexadecimal digits.
pub open spec fn encode_byte(b: u8) -> Seq<u8> {
    if is_unreserved(b) {
        seq![b]
    } else {
        seq![0x25u8, hex_digit(b as int / 16), hex_digit(b as int % 16)]
    }
}

/// The percent-encoding of `bytes`, byte by byte.
pub open spec fn percent_encode_bytes(bytes: Seq<u8>) -> Seq<u8>
    decreases bytes.len(),
{
    if bytes.len() == 0 {
        seq![]
    } else {
        percent_encode_bytes(bytes.drop_last()) + encode_byte(bytes.last())
    }
}

/// The bytes that `text` percent-decodes to: `%` and two hexadecimal digits
/// give the byte of that value, any other byte stands for itself; `None`
/// when a `%` is not followed by two hexadecimal digits.
pub open spec fn percent_decode_bytes(text: Seq<u8>) -> Option<Seq<u8>>
    decreases text.len(),
{
    if text.len() == 0 {
        Some(seq![])
    } else if text[0] == 0x25u8 {
        if text.len() >= 3 && hex_digit_value(text[1]) is Some && hex_digit_value(text[2]) is Some {
            match percent_decode_bytes(text.skip(3)) {
                Some(rest) => Some(
                    seq![(hex_digit_value(text[1])->0 * 16 + hex_digit_value(text[2])->0) as u8] + rest,
                ),
                None => None,
            }
        } else {
            None
        }
    } else {
        match percent_decode_bytes(text.skip(1)) {
            Some(rest) => Some(seq![text[0]] + rest),
            None => None,
        }
    }
}

/// The text that `text` percent-decodes to, when its bytes decode and form UTF-8.
pub open spec fn percent_decode_text(text: Seq<u8>) -> Option<Seq<char>> {
    match percent_decode_bytes(text) {
        Some(bytes) => if valid_utf8(bytes) { Some(decode_utf8(bytes)) } else { None },
        None => None,
    }
}

/// The characters of ASCII bytes.
pub open spec fn ascii_text(bytes: Seq<u8>) -> Seq<char> {
    bytes.map_values(|b: u8| b as char)
}

/// The bytes of `file://`.
pub open spec fn file_scheme() -> Seq<u8> {
    seq![0x66u8, 0x69u8, 0x6cu8, 0x65u8, 0x3au8, 0x2fu8, 0x2fu8]
}

/// A path's bytes with each `\` turned into `/`.
pub open spec fn forward_slashes(bytes: Seq<u8>) -> Seq<u8> {
    bytes.map_values(|b: u8| if b == 0x5cu8 { 0x2fu8 } else { b })
}

/// The URI of an absolute path: `file://` and the percent-encoding of the
/// path's bytes, `\` written as `/`.
pub open spec fn file_uri_text(path_bytes: Seq<u8>) -> Seq<char> {
    ascii_text(file_scheme() + percent_encode_bytes(forward_slashes(path_bytes)))
}

/// The path a URI's bytes name: what follows `file://`, percent-decoded;
/// `None` for another scheme or text that does not decode to UTF-8.
pub open spec fn uri_path_text(uri: Seq<u8>) -> Option<Seq<char>> {
    if uri.len() >= 7 && uri.take(7) == file_scheme() {
        percent_decode_text(uri.skip(7))
    } else {
        None
    }
}

/// `String::from_utf8`: the string whose UTF-8 encoding is `bytes`, or
/// `None` when they are not UTF-8. The claim is what std documents: success
/// exactly on valid UTF-8, and the string then holds the decoded characters.
#[verifier::external_body]
fn string_from_utf8(bytes: Vec<u8>) -> (r: Option<String>)
    ensures
        r is Some <==> valid_utf8(bytes@),
        r matches Some(s) ==> s@ == decode_utf8(bytes@),
{
    String::from_utf8(bytes).ok()
}

/// ASCII bytes are UTF-8 and decode to the characters of the same codes.
proof fn lemma_ascii_utf8(bytes: Seq<u8>)
    requires
        forall|i: int| 0 <= i < bytes.len() ==> #[trigger] bytes[i] < 0x80,
    ensures
        valid_utf8(bytes),
        decode_utf8(bytes) == ascii_text(bytes),
        encode_utf8(ascii_text(bytes)) == bytes,
{
    let chars = ascii_text(bytes);
    assert(is_ascii_chars(chars)) by {
        assert forall|i: int| 0 <= i < chars.len() implies '\0' <= #[trigger] chars[i] <= '\u{7f}' by {
            assert(chars[i] == bytes[i] as char);
        }
    }
    is_ascii_chars_encode_utf8(chars);
    assert forall|i: int| 0 <= i < bytes.len() implies #[trigger] encode_utf8(chars)[i] == bytes[i] by {
        assert(chars[i] == bytes[i] as char);
        assert(chars[i] as u8 == encode_utf8(chars)[i]);
    }
    assert(encode_utf8(chars) =~= bytes);
    encode_utf8_valid_utf8(chars);
    encode_utf8_decode_utf8(chars);
}

proof fn lemma_encode_byte_ascii(b: u8)
    ensures
        forall|i: int| 0 <= i < encode_byte(b).len() ==> #[trigger] encode_byte(b)[i] < 0x80,
{
}

proof fn lemma_percent_encode_ascii(bytes: Seq<u8>)
    ensures
        forall|i: int| 0 <= i < percent_encode_bytes(bytes).len() ==> #[trigger] percent_encode_bytes(bytes)[i] < 0x80,
    decreases bytes.len(),
{
    if bytes.len() > 0 {
        lemma_percent_encode_ascii(bytes.drop_last());
        lemma_encode_byte_ascii(bytes.last());
        let a = percent_encode_bytes(bytes.drop_last());
        let e = encode_byte(bytes.last());
        assert forall|i: int| 0 <= i < (a + e).len() implies #[trigger] (a + e)[i] < 0x80 by {
            if i >= a.len() {
                assert((a + e)[i] == e[i - a.len()]);
            }
        }
    }
}

proof fn lemma_percent_encode_concat(a: Seq<u8>, b: Seq<u8>)
    ensures
        percent_encode_bytes(a + b) == percent_encode_bytes(a) + percent_encode_bytes(b),
    decreases b.len(),
{
    if b.len() == 0 {
        assert(a + b =~= a);
        assert(percent_encode_bytes(a) + percent_encode_bytes(b) =~= percent_encode_bytes(a));
    } else {
        assert((a + b).drop_last() =~= a + b.drop_last());
        lemma_percent_encode_concat(a, b.drop_last());
        assert(percent_encode_bytes(a + b) =~= percent_encode_bytes(a) + percent_encode_bytes(b));
    }
}

/// Decoding what encoding wrote gives back the bytes.
pub proof fn lemma_percent_roundtrip_bytes(bytes: Seq<u8>)
    ensures
        percent_decode_bytes(percent_encode_bytes(bytes)) == Some(bytes),
    decreases bytes.len(),
{
    if bytes.len() > 0 {
        let b = bytes[0];
        let rest = bytes.drop_first();
        assert(bytes =~= seq![b] + rest);
        lemma_percent_encode_concat(seq![b], rest);
        assert(seq![b].drop_last() =~= Seq::<u8>::empty());
        assert(seq![b].last() == b);
        assert(percent_encode_bytes(seq![b].drop_last()) =~= Seq::<u8>::empty());
        assert(percent_encode_bytes(seq![b]) =~= encode_byte(b));
        lemma_percent_roundtrip_bytes(rest);
        let enc = percent_encode_bytes(bytes);
        let e = encode_byte(b);
        assert(enc =~= e + percent_encode_bytes(rest));
        if is_unreserved(b) {
            assert(enc.skip(1) =~= percent_encode_bytes(rest));
        } else {
            assert(enc.skip(3) =~= percent_encode_bytes(rest));
            let hi = b as int / 16;
            let lo = b as int % 16;
            assert(hex_digit_value(hex_digit(hi)) == Some(hi as u8));
            assert(hex_digit_value(hex_digit(lo)) == Some(lo as u8));
            assert(hi * 16 + lo == b) by (nonlinear_arith)
                requires
                    hi == b as int / 16,
                    lo == b as int % 16,
            ;
        }
        assert(percent_decode_bytes(enc) =~= Some(seq![b] + rest));
    }
}

/// The value of a hexadecimal digit byte (see [`hex_digit_value`]).
pub fn hex_value(byte: u8) -> (r: Option<u8>)
    ensures
        r == hex_digit_value(byte),
{
    if 0x30 <= byte && byte <= 0x39 {
        Some(byte - 0x30)
    } else if 0x61 <= byte && byte <= 0x66 {
        Some(byte - 0x61 + 10)
    } else if 0x41 <= byte && byte <= 0x46 {
        Some(byte - 0x41 + 10)
    } else {
        None
    }
}

fn hex_digit_byte(d: u8) -> (r: u8)
    requires
        d < 16,
    ensures
        r == hex_digit(d as int),
{
    if d < 10 {
        d + 0x30
    } else {
        d - 10 + 0x41
    }
}

fn unreserved(b: u8) -> (r: bool)
    ensures
        r == is_unreserved(b),
{
    (0x30 <= b && b <= 0x39) || (0x41 <= b && b <= 0x5a) || (0x61 <= b && b <= 0x7a) || b == 0x2f || b == 0x2e
        || b == 0x2d || b == 0x5f
}

/// Appends the percent-encoding of `bytes`, with `\` written as `/` when
/// `slashes` is set.
fn push_encoded(out: &mut Vec<u8>, bytes: &[u8], slashes: bool)
    ensures
        final(out)@ == old(out)@ + percent_encode_bytes(if slashes { forward_slashes(bytes@) } else { bytes@ }),
{
    let ghost src = if slashes { forward_slashes(bytes@) } else { bytes@ };
    let mut i: usize = 0;
    while i < bytes.len()
        invariant
            i <= bytes@.len(),
            src == (if slashes { forward_slashes(bytes@) } else { bytes@ }),
            src.len() == bytes@.len(),
            out@ == old(out)@ + percent_encode_bytes(src.take(i as int)),
        decreases bytes@.len() - i,
    {
        let raw = bytes[i];
        let b = if slashes && raw == 0x5c { 0x2f } else { raw };
        proof {
            assert(src[i as int] == b);
        }
        if unreserved(b) {
            out.push(b);
        } else {
            out.push(0x25);
            out.push(hex_digit_byte(b / 16));
            out.push(hex_digit_byte(b % 16));
        }
        proof {
            let t = src.take(i + 1);
            assert(t.drop_last() =~= src.take(i as int));
            assert(t.last() == b);
            assert(out@ =~= old(out)@ + percent_encode_bytes(t));
        }
        i = i + 1;
    }
    proof {
        assert(src.take(bytes@.len() as int) =~= src);
    }
}

/// The string of ASCII bytes.
fn ascii_string(bytes: Vec<u8>) -> (r: String)
    requires
        forall|i: int| 0 <= i < bytes@.len() ==> #[trigger] bytes@[i] < 0x80,
    ensures
        r@ == ascii_text(bytes@),
{
    proof {
        lemma_ascii_utf8(bytes@);
    }
    let ghost b = bytes@;
    match string_from_utf8(bytes) {
        Some(s) => s,
        None => {
            proof {
                assert(false);
            }
            String::new()
        },
    }
}

/// The percent-encoding of `input`'s UTF-8 bytes (see [`encode_byte`]).
pub fn percent_encode(input: &str) -> (r: String)
    ensures
        r@ == ascii_text(percent_encode_bytes(input.spec_bytes())),
{
    let mut out: Vec<u8> = Vec::new();
    push_encoded(&mut out, input.as_bytes(), false);
    proof {
        assert(out@ =~= percent_encode_bytes(input.spec_bytes()));
        lemma_percent_encode_ascii(input.spec_bytes());
    }
    ascii_string(out)
}

/// The text the bytes of `source` from `start` on percent-decode to.
fn decode_from(source: &[u8], start: usize) -> (r: Option<String>)
    requires
        start <= source@.len(),
    ensures
        match r {
            Some(s) => percent_decode_text(source@.skip(start as int)) == Some(s@),
            None => percent_decode_text(source@.skip(start as int)) is None,
        },
{
    let ghost src = source@;
    let mut bytes: Vec<u8> = Vec::new();
    let mut idx: usize = start;
    while idx < source.len()
        invariant
            start <= idx <= src.len(),
            src == source@,
            percent_decode_bytes(src.skip(start as int)) == (match percent_decode_bytes(src.skip(idx as int)) {
                Some(rest) => Some(bytes@ + rest),
                None => None::<Seq<u8>>,
            }),
        decreases src.len() - idx,
    {
        let ghost tail = src.skip(idx as int);
        if source[idx] == 0x25 {
            if source.len() - idx < 3 {
                proof {
                    assert(!(tail.len() >= 3));
                }
                return None;
            }
            let hi = match hex_value(source[idx + 1]) {
                Some(v) => v,
                None => {
                    proof {
                        assert(tail[1] == src[idx + 1]);
                    }
                    return None;
                },
            };
            let lo = match hex_value(source[idx + 2]) {
                Some(v) => v,
                None => {
                    proof {
                        assert(tail[2] == src[idx + 2]);
                    }
                    return None;
                },
            };
            proof {
                assert(tail[1] == src[idx + 1]);
                assert(tail[2] == src[idx + 2]);
                assert(tail.skip(3) =~= src.skip(idx + 3));
                assert(hi * 16 + lo < 256);
            }
            let ghost before = bytes@;
            bytes.push(hi * 16 + lo);
            proof {
                match percent_decode_bytes(src.skip(idx + 3)) {
                    Some(rest) => {
                        assert(before + (seq![(hi * 16 + lo) as u8] + rest) =~= bytes@ + rest);
                    },
                    None => {},
                }
            }
            idx = idx + 3;
        } else {
            let ghost before = bytes@;
            bytes.push(source[idx]);
            proof {
                assert(tail[0] == src[idx as int]);
                assert(tail.skip(1) =~= src.skip(idx + 1));
                match percent_decode_bytes(src.skip(idx + 1)) {
                    Some(rest) => {
                        assert(before + (seq![src[idx as int]] + rest) =~= bytes@ + rest);
                    },
                    None => {},
                }
            }
            idx = idx + 1;
        }
    }
    proof {
        assert(src.skip(start as int).skip(0) =~= src.skip(start as int));
        assert(src.skip(idx as int) =~= Seq::<u8>::empty());
        assert(bytes@ + Seq::<u8>::empty() =~= bytes@);
    }
    string_from_utf8(bytes)
}

/// The text `input` percent-decodes to (see [`percent_decode_bytes`]);
/// `None` when an escape is malformed or the bytes are not UTF-8.
pub fn percent_decode(input: &str) -> (r: Option<String>)
    ensures
        match r {
            Some(s) => percent_decode_text(input.spec_bytes()) == Some(s@),
            None => percent_decode_text(input.spec_bytes()) is None,
        },
{
    let bytes = input.as_bytes();
    proof {
        assert(bytes@.skip(0) =~= bytes@);
    }
    decode_from(bytes, 0)
}

/// Whether `bytes` begins with `file://`.
fn has_file_scheme(bytes: &[u8]) -> (r: bool)
    ensures
        r == (bytes@.len() >= 7 && bytes@.take(7) == file_scheme()),
{
    let r = bytes.len() >= 7 && bytes[0] == 0x66 && bytes[1] == 0x69 && bytes[2] == 0x6c && bytes[3] == 0x65
        && bytes[4] == 0x3a && bytes[5] == 0x2f && bytes[6] == 0x2f;
    proof {
        if bytes@.len() >= 7 {
            if r {
                assert(bytes@.take(7) =~= file_scheme());
            } else {
                assert(bytes@.take(7) != file_scheme()) by {
                    if bytes@.take(7) == file_scheme() {
                        assert(bytes@.take(7)[0] == bytes@[0]);
                        assert(bytes@.take(7)[1] == bytes@[1]);
                        assert(bytes@.take(7)[2] == bytes@[2]);
                        assert(bytes@.take(7)[3] == bytes@[3]);
                        assert(bytes@.take(7)[4] == bytes@[4]);
                        assert(bytes@.take(7)[5] == bytes@[5]);
                        assert(bytes@.take(7)[6] == bytes@[6]);
                    }
                }
            }
        }
    }
    r
}

/// The path a `file://` URI names, percent-decoded; `None` for another
/// scheme or an escape that does not decode to UTF-8 text.
pub fn uri_to_path(uri: &str) -> (r: Option<String>)
    ensures
        match r {
            Some(s) => uri_path_text(uri.spec_bytes()) == Some(s@),
            None => uri_path_text(uri.spec_bytes()) is None,
        },
{
    let bytes = uri.as_bytes();
    if !has_file_scheme(bytes) {
        return None;
    }
    decode_from(bytes, 7)
}

/// The URI of an absolute path (see [`file_uri_text`]).
pub fn path_to_uri(absolute_path: &str) -> (r: String)
    ensures
        r@ == file_uri_text(absolute_path.spec_bytes()),
{
    let mut out: Vec<u8> = Vec::new();
    out.push(0x66);
    out.push(0x69);
    out.push(0x6c);
    out.push(0x65);
    out.push(0x3a);
    out.push(0x2f);
    out.push(0x2f);
    proof {
        assert(out@ =~= file_scheme());
    }
    push_encoded(&mut out, absolute_path.as_bytes(), true);
    proof {
        let enc = percent_encode_bytes(forward_slashes(absolute_path.spec_bytes()));
        lemma_percent_encode_ascii(forward_slashes(absolute_path.spec_bytes()));
        assert forall|i: int| 0 <= i < out@.len() implies #[trigger] out@[i] < 0x80 by {
            if i >= 7 {
                assert(out@[i] == enc[i - 7]);
            }
        }
    }
    ascii_string(out)
}

/// A path whose bytes hold no `\` comes back from its URI unchanged.
pub proof fn lemma_uri_roundtrip(path: Seq<char>)
    requires
        forall|i: int| 0 <= i < encode_utf8(path).len() ==> #[trigger] encode_utf8(path)[i] != 0x5cu8,
    ensures
        uri_path_text(encode_utf8(file_uri_text(encode_utf8(path)))) == Some(path),
{
    let pb = encode_utf8(path);
    assert(forward_slashes(pb) =~= pb);
    let enc = percent_encode_bytes(pb);
    let all = file_scheme() + enc;
    lemma_percent_encode_ascii(pb);
    assert forall|i: int| 0 <= i < all.len() implies #[trigger] all[i] < 0x80 by {
        if i >= 7 {
            assert(all[i] == enc[i - 7]);
        }
    }
    lemma_ascii_utf8(all);
    assert(all.take(7) =~= file_scheme());
    assert(all.skip(7) =~= enc);
    lemma_percent_roundtrip_bytes(pb);
    encode_utf8_valid_utf8(path);
    encode_utf8_decode_utf8(path);
}

/* Positions */

/// UTF-16 code units of a character by the length of its UTF-8 encoding:
/// two for a four-byte character, one for any other.
pub open spec fn utf16_units(width: int) -> int {
    if width == 4 { 2 } else { 1 }
}

/// The number of UTF-16 code units of the characters that UTF-8 `bytes` encode.
pub open spec fn utf16_len(bytes: Seq<u8>) -> int
    decreases bytes.len(),
{
    if bytes.len() == 0 || !valid_first_scalar(bytes) {
        0
    } else {
        utf16_units(length_of_first_scalar(bytes)) + utf16_len(pop_first_scalar(bytes))
    }
}

/// The bytes of the shortest run of leading characters of UTF-8 `bytes`
/// that spans at least `column` UTF-16 units, or all of them when they span fewer.
pub open spec fn utf16_column_bytes(bytes: Seq<u8>, column: int) -> int
    decreases bytes.len(),
{
    if bytes.len() == 0 || column <= 0 || !valid_first_scalar(bytes) {
        0
    } else {
        length_of_first_scalar(bytes) + utf16_column_bytes(
            pop_first_scalar(bytes),
            column - utf16_units(length_of_first_scalar(bytes)),
        )
    }
}

/// Where line `line` of UTF-8 `bytes` ends: where the next line starts,
/// or the end of the text for the last line.
pub open spec fn line_end_of(bytes: Seq<u8>, line: int) -> int {
    let starts = line_starts_of(bytes);
    if line + 1 < starts.len() {
        starts[line + 1] as int
    } else {
        bytes.len() as int
    }
}

/// The offset an editor position names in UTF-8 `bytes`: the start of its
/// line plus the bytes its UTF-16 column spans within that line (at most
/// the whole line); `None` past the last line.
pub open spec fn position_offset(bytes: Seq<u8>, position: LspPosition) -> Option<int> {
    let starts = line_starts_of(bytes);
    let line = position.line as int;
    if line >= starts.len() {
        None
    } else {
        let start = starts[line] as int;
        Some(start + utf16_column_bytes(bytes.subrange(start, line_end_of(bytes, line)), position.character as int))
    }
}

/// `n`, or the largest `u32` when `n` is larger.
pub open spec fn saturate_u32(n: int) -> u32 {
    if n <= u32::MAX {
        n as u32
    } else {
        u32::MAX
    }
}

/// The editor position of `offset` (taken at most at the end) in UTF-8
/// `bytes`, on line `line`: the line and the UTF-16 units from the line's
/// start, each at most the largest `u32`.
pub open spec fn position_on_line(bytes: Seq<u8>, offset: int, line: int) -> LspPosition {
    let start = line_starts_of(bytes)[line] as int;
    LspPosition { line: saturate_u32(line), character: saturate_u32(utf16_len(bytes.subrange(start, offset))) }
}

/// The editor position of `offset` (taken at most at the end) in UTF-8
/// `bytes`: on the line that holds it.
pub open spec fn position_of(bytes: Seq<u8>, offset: int) -> LspPosition {
    let c = clamp_offset(bytes, offset);
    position_on_line(bytes, c, choose|line: int| is_line_of(line_starts_of(bytes), c, line))
}

/// `offset` or the end of the text, whichever comes first.
pub open spec fn clamp_offset(bytes: Seq<u8>, offset: int) -> int {
    if offset <= bytes.len() {
        offset
    } else {
        bytes.len() as int
    }
}

proof fn lemma_pop_shorter(bytes: Seq<u8>)
    requires
        bytes.len() > 0,
        valid_first_scalar(bytes),
    ensures
        1 <= length_of_first_scalar(bytes) <= bytes.len(),
        pop_first_scalar(bytes).len() == bytes.len() - length_of_first_scalar(bytes),
{
}

/// In UTF-8 text, the byte after an ASCII byte starts a character.
proof fn lemma_boundary_after_ascii(b: Seq<u8>, i: int)
    requires
        valid_utf8(b),
        0 <= i < b.len(),
        b[i] < 0x80,
    ensures
        is_char_boundary(b, i + 1),
    decreases b.len(),
{
    lemma_pop_shorter(b);
    let l = length_of_first_scalar(b);
    let rest = pop_first_scalar(b);
    if i < l {
        assert(l == 1) by {
            if l > 1 {
                if i == 0 {
                    assert(!is_leading_byte_width_1(b[0]));
                } else {
                    assert(is_continuation_byte(b[i]));
                }
            }
        }
        is_char_boundary_start_end_of_seq(rest);
    } else {
        assert(rest[i - l] == b[i]);
        lemma_boundary_after_ascii(rest, i - l);
    }
}

/// A piece of UTF-8 text cut at two character boundaries is UTF-8.
proof fn lemma_valid_between(b: Seq<u8>, x: int, y: int)
    requires
        valid_utf8(b),
        0 <= x <= y <= b.len(),
        is_char_boundary(b, x),
        is_char_boundary(b, y),
    ensures
        valid_utf8(b.subrange(x, y)),
{
    valid_utf8_split(b, y);
    let pre = b.subrange(0, y);
    if x < y {
        is_char_boundary_iff_not_is_continuation_byte(b, x);
        is_char_boundary_iff_not_is_continuation_byte(pre, x);
    } else {
        is_char_boundary_start_end_of_seq(pre);
    }
    valid_utf8_split(pre, x);
    assert(pre.subrange(x, pre.len() as int) =~= b.subrange(x, y));
}

/// Each line starts at offset zero or just after a newline byte.
proof fn lemma_line_starts_after_newline(bytes: Seq<u8>)
    requires
        bytes.len() <= usize::MAX,
    ensures
        forall|k: int|
            0 <= k < line_starts_of(bytes).len() ==> (#[trigger] line_starts_of(bytes)[k] == 0 || (
            0 < line_starts_of(bytes)[k] <= bytes.len() && bytes[line_starts_of(bytes)[k] - 1] == 10u8)),
    decreases bytes.len(),
{
    if bytes.len() > 0 {
        let prev = bytes.drop_last();
        lemma_line_starts_after_newline(prev);
        let ps = line_starts_of(prev);
        assert(line_starts_of(bytes) == if bytes.last() == 10u8 { ps.push(bytes.len() as usize) } else { ps });
        assert forall|k: int| 0 <= k < line_starts_of(bytes).len() implies (#[trigger] line_starts_of(bytes)[k] == 0
            || (0 < line_starts_of(bytes)[k] <= bytes.len() && bytes[line_starts_of(bytes)[k] - 1] == 10u8)) by {
            if k < line_starts_of(prev).len() {
                assert(line_starts_of(bytes)[k] == line_starts_of(prev)[k]);
                if line_starts_of(prev)[k] != 0 {
                    assert(bytes[line_starts_of(prev)[k] - 1] == prev[line_starts_of(prev)[k] - 1]);
                }
            }
        }
    }
}

/// The bytes a UTF-16 column spans end on a character boundary.
proof fn lemma_column_boundary(t: Seq<u8>, c: int)
    requires
        valid_utf8(t),
    ensures
        0 <= utf16_column_bytes(t, c) <= t.len(),
        is_char_boundary(t, utf16_column_bytes(t, c)),
    decreases t.len(),
{
    if t.len() == 0 || c <= 0 || !valid_first_scalar(t) {
    } else {
        lemma_pop_shorter(t);
        let l = length_of_first_scalar(t);
        let rest = pop_first_scalar(t);
        lemma_column_boundary(rest, c - utf16_units(l));
        let k = utf16_column_bytes(rest, c - utf16_units(l));
        assert(utf16_column_bytes(t, c) == l + k);
        assert(is_char_boundary(t, l + k));
    }
}

/// The offset of an editor position falls on a character boundary.
pub proof fn lemma_position_offset_boundary(bytes: Seq<u8>, position: LspPosition)
    requires
        valid_utf8(bytes),
        bytes.len() <= usize::MAX,
        position_offset(bytes, position) is Some,
    ensures
        0 <= position_offset(bytes, position)->0 <= bytes.len(),
        is_char_boundary(bytes, position_offset(bytes, position)->0),
{
    let line = position.line as int;
    lemma_line_bounds(bytes, line);
    let start = line_starts_of(bytes)[line] as int;
    let end = line_end_of(bytes, line);
    let sub = bytes.subrange(start, end);
    lemma_column_boundary(sub, position.character as int);
    let k = utf16_column_bytes(sub, position.character as int);
    if k < sub.len() {
        is_char_boundary_iff_not_is_continuation_byte(sub, k);
        is_char_boundary_iff_not_is_continuation_byte(bytes, start + k);
        assert(sub[k] == bytes[start + k]);
    }
}

/// Every line start of UTF-8 text is a character boundary, and so is the end of every line.
proof fn lemma_line_bounds(bytes: Seq<u8>, line: int)
    requires
        valid_utf8(bytes),
        bytes.len() <= usize::MAX,
        0 <= line < line_starts_of(bytes).len(),
    ensures
        line_starts_of(bytes)[line] <= line_end_of(bytes, line) <= bytes.len(),
        is_char_boundary(bytes, line_starts_of(bytes)[line] as int),
        is_char_boundary(bytes, line_end_of(bytes, line)),
        valid_utf8(bytes.subrange(line_starts_of(bytes)[line] as int, line_end_of(bytes, line))),
{
    let starts = line_starts_of(bytes);
    lemma_line_starts_wf(bytes);
    lemma_line_starts_after_newline(bytes);
    is_char_boundary_start_end_of_seq(bytes);
    assert(is_char_boundary(bytes, starts[line] as int)) by {
        if starts[line] != 0 {
            lemma_boundary_after_ascii(bytes, starts[line] - 1);
        }
    }
    if line + 1 < starts.len() {
        assert(starts[line] < starts[line + 1]);
        assert(starts[line + 1] != 0);
        lemma_boundary_after_ascii(bytes, starts[line + 1] - 1);
    }
    lemma_valid_between(bytes, starts[line] as int, line_end_of(bytes, line));
}

/// The UTF-8 width a leading byte announces.
fn leading_width(b: u8) -> (w: usize)
    ensures
        1 <= w <= 4,
        is_leading_byte_width_1(b) ==> w == 1,
        is_leading_byte_width_2(b) ==> w == 2,
        is_leading_byte_width_3(b) ==> w == 3,
        is_leading_byte_width_4(b) ==> w == 4,
{
    if b < 0x80 {
        1
    } else if b < 0xe0 {
        2
    } else if b < 0xf0 {
        3
    } else {
        4
    }
}

/// The bytes from `start` that span `column` UTF-16 units before `end`
/// (see [`utf16_column_bytes`]).
fn column_bytes(bytes: &[u8], start: usize, end: usize, column: u32) -> (n: usize)
    requires
        start <= end <= bytes@.len(),
        valid_utf8(bytes@.subrange(start as int, end as int)),
    ensures
        n == utf16_column_bytes(bytes@.subrange(start as int, end as int), column as int),
        start + n <= end,
{
    let ghost whole = bytes@.subrange(start as int, end as int);
    let mut seen: u64 = 0;
    let mut j: usize = start;
    while j < end && seen < column as u64
        invariant
            start <= j <= end <= bytes@.len(),
            seen <= column as u64 + 1,
            valid_utf8(bytes@.subrange(j as int, end as int)),
            whole == bytes@.subrange(start as int, end as int),
            utf16_column_bytes(whole, column as int) == (j - start) + utf16_column_bytes(
                bytes@.subrange(j as int, end as int),
                column - seen,
            ),
        decreases end - j,
    {
        let ghost rest = bytes@.subrange(j as int, end as int);
        proof {
            lemma_pop_shorter(rest);
            assert(rest[0] == bytes@[j as int]);
        }
        let w = leading_width(bytes[j]);
        proof {
            assert(w == length_of_first_scalar(rest));
            assert(pop_first_scalar(rest) =~= bytes@.subrange(j + w, end as int));
        }
        seen = seen + if w == 4 { 2 } else { 1 };
        j = j + w;
    }
    proof {
        let rest = bytes@.subrange(j as int, end as int);
        assert(utf16_column_bytes(rest, column - seen) == 0);
    }
    j - start
}

/// The UTF-16 units of the characters between `start` and `end` (see [`utf16_len`]).
fn utf16_units_between(bytes: &[u8], start: usize, end: usize) -> (n: usize)
    requires
        start <= end <= bytes@.len(),
        valid_utf8(bytes@.subrange(start as int, end as int)),
    ensures
        n == utf16_len(bytes@.subrange(start as int, end as int)),
{
    let ghost whole = bytes@.subrange(start as int, end as int);
    let mut count: usize = 0;
    let mut j: usize = start;
    while j < end
        invariant
            start <= j <= end <= bytes@.len(),
            count <= j - start,
            valid_utf8(bytes@.subrange(j as int, end as int)),
            whole == bytes@.subrange(start as int, end as int),
            utf16_len(whole) == count + utf16_len(bytes@.subrange(j as int, end as int)),
        decreases end - j,
    {
        let ghost rest = bytes@.subrange(j as int, end as int);
        proof {
            lemma_pop_shorter(rest);
            assert(rest[0] == bytes@[j as int]);
        }
        let w = leading_width(bytes[j]);
        proof {
            assert(w == length_of_first_scalar(rest));
            assert(pop_first_scalar(rest) =~= bytes@.subrange(j + w, end as int));
        }
        count = count + if w == 4 { 2 } else { 1 };
        j = j + w;
    }
    proof {
        assert(bytes@.subrange(j as int, end as int).len() == 0);
    }
    count
}

/// The offset an editor position names (see [`position_offset`]); `None`
/// past the last line.
pub fn position_to_offset(file: &SourceFile, position: LspPosition) -> (r: Option<usize>)
    ensures
        match r {
            Some(o) => position_offset(file.spec_bytes(), position) == Some(o as int),
            None => position_offset(file.spec_bytes(), position) is None,
        },
        r matches Some(o) ==> o <= file.spec_bytes().len() && is_char_boundary(file.spec_bytes(), o as int),
{
    let text = file.source();
    let bytes = text.as_bytes();
    let index = file.line_index();
    let line = position.line as usize;
    let ghost b = file.spec_bytes();
    let count = index.line_count();
    let line_start = match index.line_start(line) {
        Some(s) => s,
        None => return None,
    };
    proof {
        encode_utf8_valid_utf8(text@);
        lemma_line_bounds(b, line as int);
    }
    let line_end = if line + 1 < count {
        match index.line_start(line + 1) {
            Some(e) => e,
            None => return None,
        }
    } else {
        bytes.len()
    };
    let n = column_bytes(bytes, line_start, line_end, position.character);
    proof {
        lemma_position_offset_boundary(b, position);
    }
    Some(line_start + n)
}

/// The editor position of `offset`, taken at most at the end of the file
/// (see [`position_on_line`]). The offset must fall on a character boundary.
pub fn offset_to_position(file: &SourceFile, offset: usize) -> (r: LspPosition)
    requires
        is_char_boundary(file.spec_bytes(), clamp_offset(file.spec_bytes(), offset as int)),
    ensures
        exists|line: int|
            is_line_of(line_starts_of(file.spec_bytes()), clamp_offset(file.spec_bytes(), offset as int), line)
                && r == position_on_line(file.spec_bytes(), clamp_offset(file.spec_bytes(), offset as int), line),
        (forall|line: int|
            #[trigger] is_line_of(line_starts_of(file.spec_bytes()), clamp_offset(file.spec_bytes(), offset as int), line)
                ==> line < u32::MAX && utf16_len(
                file.spec_bytes().subrange(
                    line_starts_of(file.spec_bytes())[line] as int,
                    clamp_offset(file.spec_bytes(), offset as int),
                ),
            ) < u32::MAX) ==> position_offset(file.spec_bytes(), r) == Some(clamp_offset(file.spec_bytes(), offset as int)),
        r == position_of(file.spec_bytes(), offset as int),
{
    let text = file.source();
    let bytes = text.as_bytes();
    let ghost b = file.spec_bytes();
    let clamped = if offset < file.len() { offset } else { file.len() };
    let lc = match file.line_col(clamped) {
        Some(lc) => lc,
        None => {
            proof {
                assert(false);
            }
            return LspPosition { line: 0, character: 0 };
        },
    };
    let line_start = match file.line_index().line_start(lc.line) {
        Some(s) => s,
        None => {
            proof {
                assert(false);
            }
            0
        },
    };
    proof {
        encode_utf8_valid_utf8(text@);
        lemma_line_bounds(b, lc.line as int);
        lemma_valid_between(b, line_start as int, clamped as int);
    }
    let units = utf16_units_between(bytes, line_start, clamped);
    let line = if lc.line <= 0xffff_ffffusize { lc.line as u32 } else { 0xffff_ffffu32 };
    let character = if units <= 0xffff_ffffusize { units as u32 } else { 0xffff_ffffu32 };
    let r = LspPosition { line, character };
    proof {
        assert(clamped as int == clamp_offset(b, offset as int));
        assert(is_line_of(line_starts_of(b), clamped as int, lc.line as int));
        assert(r == position_on_line(b, clamped as int, lc.line as int));
        let chosen = choose|l: int| is_line_of(line_starts_of(b), clamped as int, l);
        lemma_line_starts_wf(b);
        lemma_line_of_unique(line_starts_of(b), b.len(), clamped as int, chosen, lc.line as int);
        if line < u32::MAX && utf16_len(b.subrange(line_start as int, clamped as int)) < u32::MAX {
            lemma_position_roundtrip(b, clamped as int, lc.line as int);
        }
    }
    r
}

/// The editor range of a span; both ends must fall on character boundaries
/// (see [`offset_to_position`]).
pub fn span_to_lsp_range(file: &SourceFile, span: Span) -> (r: LspRange)
    requires
        is_char_boundary(file.spec_bytes(), clamp_offset(file.spec_bytes(), span.start as int)),
        is_char_boundary(file.spec_bytes(), clamp_offset(file.spec_bytes(), span.end as int)),
    ensures
        exists|line: int|
            is_line_of(line_starts_of(file.spec_bytes()), clamp_offset(file.spec_bytes(), span.start as int), line)
                && r.start == position_on_line(file.spec_bytes(), clamp_offset(file.spec_bytes(), span.start as int), line),
        exists|line: int|
            is_line_of(line_starts_of(file.spec_bytes()), clamp_offset(file.spec_bytes(), span.end as int), line)
                && r.end == position_on_line(file.spec_bytes(), clamp_offset(file.spec_bytes(), span.end as int), line),
{
    let start = offset_to_position(file, span.start);
    let end = offset_to_position(file, span.end);
    LspRange { start, end }
}

/* Offsets and positions */

/// Counting the UTF-16 units of a leading run of characters and taking that
/// many units back gives the run's bytes.
proof fn lemma_column_of_prefix(t: Seq<u8>, k: int)
    requires
        valid_utf8(t),
        0 <= k <= t.len(),
        is_char_boundary(t, k),
    ensures
        utf16_column_bytes(t, utf16_len(t.take(k))) == k,
    decreases t.len(),
{
    if k == 0 {
        assert(t.take(0).len() == 0);
    } else {
        lemma_pop_shorter(t);
        let w = length_of_first_scalar(t);
        let rest = pop_first_scalar(t);
        let p = t.take(k);
        assert(k >= w) by {
            reveal_with_fuel(is_char_boundary, 2);
            if k < w {
                assert(is_char_boundary(t, k) == is_char_boundary(rest, k - w));
            }
        }
        assert(is_char_boundary(rest, k - w));
        assert(p[0] == t[0]);
        assert(w >= 2 ==> p[1] == t[1]);
        assert(w >= 3 ==> p[2] == t[2]);
        assert(w >= 4 ==> p[3] == t[3]);
        assert(valid_first_scalar(p));
        assert(length_of_first_scalar(p) == w);
        assert(pop_first_scalar(p) =~= rest.take(k - w));
        lemma_column_of_prefix(rest, k - w);
        assert(utf16_len(p) == utf16_units(w) + utf16_len(rest.take(k - w)));
        assert(utf16_len(p) >= 1) by {
            lemma_utf16_len_nonneg(rest.take(k - w));
        }
    }
}

proof fn lemma_utf16_len_nonneg(t: Seq<u8>)
    ensures
        utf16_len(t) >= 0,
    decreases t.len(),
{
    if t.len() > 0 && valid_first_scalar(t) {
        lemma_pop_shorter(t);
        lemma_utf16_len_nonneg(pop_first_scalar(t));
    }
}

/// Going from an offset to its editor position and back gives the offset,
/// for an offset inside the text on a character boundary whose line and
/// column fit the position's numbers.
pub proof fn lemma_position_roundtrip(bytes: Seq<u8>, offset: int, line: int)
    requires
        valid_utf8(bytes),
        bytes.len() <= usize::MAX,
        0 <= offset <= bytes.len(),
        is_char_boundary(bytes, offset),
        is_line_of(line_starts_of(bytes), offset, line),
        line < u32::MAX,
        utf16_len(bytes.subrange(line_starts_of(bytes)[line] as int, offset)) < u32::MAX,
    ensures
        position_offset(bytes, position_on_line(bytes, offset, line)) == Some(offset),
{
    let starts = line_starts_of(bytes);
    let start = starts[line] as int;
    let end = line_end_of(bytes, line);
    lemma_line_bounds(bytes, line);
    lemma_utf16_len_nonneg(bytes.subrange(start, offset));
    let t = bytes.subrange(start, end);
    let k = offset - start;
    assert(offset <= end) by {
        lemma_line_starts_wf(bytes);
    }
    assert(t.take(k) =~= bytes.subrange(start, offset));
    assert(is_char_boundary(t, k)) by {
        if k < t.len() {
            is_char_boundary_iff_not_is_continuation_byte(bytes, offset);
            is_char_boundary_iff_not_is_continuation_byte(t, k);
        } else {
            is_char_boundary_start_end_of_seq(t);
        }
    }
    lemma_column_of_prefix(t, k);
}

/* Words */

/// Bytes that make up identifiers: ASCII letters, digits and `_`.
pub open spec fn is_ident(b: u8) -> bool {
    (0x30 <= b <= 0x39) || (0x41 <= b <= 0x5a) || (0x61 <= b <= 0x7a) || b == 0x5f
}

/// Where a word lookup at `position` looks: the position's offset, or the
/// last byte when that offset is at or past the end; `None` past the last
/// line or in an empty text.
pub open spec fn word_anchor(bytes: Seq<u8>, position: LspPosition) -> Option<int> {
    match position_offset(bytes, position) {
        Some(o) => if o < bytes.len() {
            Some(o)
        } else if bytes.len() == 0 {
            None
        } else {
            Some(bytes.len() - 1)
        },
        None => None,
    }
}

/// `[start, end)` is the whole run of identifier bytes around `anchor`.
pub open spec fn is_word_around(bytes: Seq<u8>, anchor: int, start: int, end: int) -> bool {
    &&& 0 <= start <= anchor < end <= bytes.len()
    &&& forall|i: int| start <= i < end ==> #[trigger] is_ident(bytes[i])
    &&& (start == 0 || !is_ident(bytes[start - 1]))
    &&& (end == bytes.len() || !is_ident(bytes[end]))
}

/// Whether `byte` belongs to identifiers (see [`is_ident`]).
pub fn is_ident_byte(byte: u8) -> (r: bool)
    ensures
        r == is_ident(byte),
{
    (0x30 <= byte && byte <= 0x39) || (0x41 <= byte && byte <= 0x5a) || (0x61 <= byte && byte <= 0x7a) || byte == 0x5f
}

/// The identifier under an editor position and its span: the run of
/// identifier bytes around the position's offset (or around the last byte
/// when the offset is at or past the end). `None` when the position is past
/// the last line, the file is empty, or no identifier byte is there.
pub fn word_span_at_position(file: &SourceFile, position: LspPosition) -> (r: Option<(String, Span)>)
    ensures
        r is Some <==> (word_anchor(file.spec_bytes(), position) matches Some(a) && is_ident(file.spec_bytes()[a])),
        r matches Some((text, span)) ==> {
            &&& word_anchor(file.spec_bytes(), position) matches Some(a)
            &&& is_word_around(file.spec_bytes(), a, span.start as int, span.end as int)
            &&& text@ == ascii_text(file.spec_bytes().subrange(span.start as int, span.end as int))
            &&& is_char_boundary(file.spec_bytes(), span.start as int)
            &&& is_char_boundary(file.spec_bytes(), span.end as int)
        },
{
    let ghost b = file.spec_bytes();
    let mut offset = match position_to_offset(file, position) {
        Some(o) => o,
        None => return None,
    };
    let bytes = file.source().as_bytes();
    if offset >= bytes.len() {
        if bytes.len() == 0 {
            return None;
        }
        offset = bytes.len() - 1;
    }
    if !is_ident_byte(bytes[offset]) {
        return None;
    }
    let mut start = offset;
    while start > 0 && is_ident_byte(bytes[start - 1])
        invariant
            start <= offset < bytes@.len(),
            bytes@ == b,
            forall|i: int| start <= i <= offset ==> #[trigger] is_ident(b[i]),
        decreases start,
    {
        start = start - 1;
    }
    let mut end = offset + 1;
    while end < bytes.len() && is_ident_byte(bytes[end])
        invariant
            offset < end <= bytes@.len(),
            bytes@ == b,
            forall|i: int| offset <= i < end ==> #[trigger] is_ident(b[i]),
        decreases bytes@.len() - end,
    {
        end = end + 1;
    }
    let span = Span::new(start, end);
    proof {
        encode_utf8_valid_utf8(file.spec_source());
        assert(is_ident(b[start as int]));
        assert(is_ident(b[end - 1]));
        is_char_boundary_iff_not_is_continuation_byte(b, start as int);
        if end < b.len() {
            lemma_boundary_after_ascii(b, end - 1);
        } else {
            is_char_boundary_start_end_of_seq(b);
        }
        assert forall|i: int| start <= i < end implies #[trigger] is_ident(b[i]) by {
            if i <= offset {
            } else {
            }
        }
    }
    let piece = match file.slice(span) {
        Some(p) => p,
        None => {
            proof {
                assert(false);
            }
            return None;
        },
    };
    let text = piece.to_owned();
    proof {
        let sub = b.subrange(start as int, end as int);
        assert forall|i: int| 0 <= i < sub.len() implies #[trigger] sub[i] < 0x80 by {
            assert(is_ident(b[start + i]));
        }
        lemma_ascii_utf8(sub);
        encode_utf8_decode_utf8(piece@);
    }
    Some((text, span))
}

} // verus!
