//! Frames on a byte stream: a header line that declares a length, one
//! further line, then that many bytes of payload.

use crate::header::{
    content_len_of, decimal_digits, digit_chars, encode_header, get_content_len, header_bytes,
    header_line, lemma_decimal_digits, lemma_header_line_declares,
};
use vstd::prelude::*;
use vstd::slice::{slice_subrange, slice_to_vec};
use vstd::string::StringSliceAdditionalSpecFns;
use vstd::utf8::{
    decode_utf8, encode_utf8, encode_utf8_decode_utf8, encode_utf8_valid_utf8, is_ascii_chars,
    is_ascii_chars_encode_utf8, valid_utf8,
};

verus! {

/// Why a stream does not start with a frame.
#[derive(Clone, Copy, Debug, PartialEq, Eq, Structural)]
pub enum FramingError {
    /// One of the two lines before the payload is not UTF-8 text.
    InvalidText,
    /// The header line declares no length: its second token is missing or
    /// is no unsigned decimal number that fits the machine.
    MissingLength,
    /// The stream ends before the declared number of payload bytes.
    Truncated,
}

/// A frame read from the start of a stream.
pub struct Frame {
    /// The payload: exactly as many bytes as the header declared.
    pub payload: Vec<u8>,
    /// The number of bytes that the frame takes in the stream, header and
    /// payload together.
    pub consumed: usize,
}

/// The position just after the first line feed at or after `from`, or the
/// length of `s` where there is none.
pub open spec fn line_end(s: Seq<u8>, from: int) -> int
    decreases s.len() - from,
{
    if 0 <= from < s.len() {
        if s[from] == 10u8 {
            from + 1
        } else {
            line_end(s, from + 1)
        }
    } else {
        from
    }
}

/// The frame at the start of the stream `s`, as its payload and the number
/// of bytes it takes, where `s` is all that can be read before the end of
/// the stream.
pub open spec fn frame_of(s: Seq<u8>) -> Result<(Seq<u8>, int), FramingError> {
    let header_end = line_end(s, 0);
    let start = line_end(s, header_end);
    if !valid_utf8(s.subrange(0, header_end)) || !valid_utf8(s.subrange(header_end, start)) {
        Err(FramingError::InvalidText)
    } else {
        match content_len_of(decode_utf8(s.subrange(0, header_end))) {
            None => Err(FramingError::MissingLength),
            Some(len) => if start + len <= s.len() {
                Ok((s.subrange(start, start + len), start + len))
            } else {
                Err(FramingError::Truncated)
            },
        }
    }
}

/// The bytes of the frame that carries `payload`.
pub open spec fn frame_bytes(payload: Seq<u8>) -> Seq<u8> {
    header_bytes(payload.len()) + payload
}

/// `std::str::from_utf8`: the text that `bytes` encode. The result is
/// `Some` exactly where `bytes` are well-formed UTF-8, and then it is the
/// text whose encoding they are.
#[verifier::external_body]
fn text_of(bytes: &[u8]) -> (r: Option<&str>)
    ensures
        r is Some <==> valid_utf8(bytes@),
        r matches Some(text) ==> text.spec_bytes() == bytes@,
{
    std::str::from_utf8(bytes).ok()
}

proof fn lemma_line_end_at(s: Seq<u8>, from: int, k: int)
    requires
        0 <= from <= k < s.len(),
        s[k] == 10u8,
        forall|j: int| from <= j < k ==> #[trigger] s[j] != 10u8,
    ensures
        line_end(s, from) == k + 1,
    decreases k - from,
{
    if from < k {
        lemma_line_end_at(s, from + 1, k);
    }
}

/// The bytes of a header are the text of its header line and of the
/// empty line after it, one byte for each character.
proof fn lemma_header_bytes_text(len: nat)
    ensures
        header_bytes(len).len() == header_line(len).len() + 2,
        header_line(len).len() == 16 + decimal_digits(len).len() + 2,
        header_bytes(len).subrange(0, header_line(len).len() as int) == encode_utf8(
            header_line(len),
        ),
        header_bytes(len).subrange(
            header_line(len).len() as int,
            header_bytes(len).len() as int,
        ) == encode_utf8("\r\n"@),
        forall|j: int|
            0 <= j < header_line(len).len() - 1 ==> #[trigger] header_bytes(len)[j] != 10u8,
        header_bytes(len)[header_line(len).len() - 1] == 10u8,
        header_bytes(len)[header_line(len).len() as int] == 13u8,
        header_bytes(len)[header_line(len).len() as int + 1] == 10u8,
{
    reveal_strlit("Content-Length: ");
    reveal_strlit("\r\n");
    reveal_strlit("\r\n\r\n");
    lemma_decimal_digits(len);
    let name = "Content-Length: "@;
    let digits = decimal_digits(len);
    let line = header_line(len);
    let bytes = header_bytes(len);
    assert(is_ascii_chars(name));
    assert(is_ascii_chars("\r\n"@));
    assert(is_ascii_chars("\r\n\r\n"@));
    assert(is_ascii_chars(line)) by {
        assert forall|i: int| 0 <= i < line.len() implies '\0' <= #[trigger] line[i]
            <= '\u{7f}' by {
            if i < 16 {
                assert(line[i] == name[i]);
            } else if i < 16 + digits.len() {
                assert(line[i] == digit_chars(digits)[i - 16]);
            } else {
                assert(line[i] == "\r\n"@[i - 16 - digits.len()]);
            }
        }
    }
    is_ascii_chars_encode_utf8(name);
    is_ascii_chars_encode_utf8("\r\n"@);
    is_ascii_chars_encode_utf8("\r\n\r\n"@);
    is_ascii_chars_encode_utf8(line);
    let first = bytes.subrange(0, line.len() as int);
    assert(first =~= encode_utf8(line)) by {
        assert forall|i: int| 0 <= i < line.len() implies first[i] == encode_utf8(line)[i] by {
            if i < 16 {
                assert(line[i] == name[i]);
                assert(bytes[i] == encode_utf8(name)[i]);
            } else if i < 16 + digits.len() {
                assert(line[i] == digit_chars(digits)[i - 16]);
                assert(bytes[i] == digits[i - 16]);
            } else {
                assert(line[i] == "\r\n"@[i - 16 - digits.len()]);
                assert(bytes[i] == encode_utf8("\r\n\r\n"@)[i - 16 - digits.len()]);
            }
        }
    }
    let second = bytes.subrange(line.len() as int, bytes.len() as int);
    assert(second =~= encode_utf8("\r\n"@)) by {
        assert forall|i: int| 0 <= i < 2 implies second[i] == encode_utf8("\r\n"@)[i] by {
            assert(second[i] == encode_utf8("\r\n\r\n"@)[i + 2]);
        }
    }
    assert forall|j: int| 0 <= j < line.len() - 1 implies #[trigger] bytes[j] != 10u8 by {
        assert(bytes[j] == first[j]);
        if j < 16 {
            assert(line[j] == name[j]);
        } else if j < 16 + digits.len() {
            assert(line[j] == digit_chars(digits)[j - 16]);
        } else {
            assert(line[j] == '\r');
        }
    }
    assert(bytes[line.len() - 1] == first[line.len() - 1]);
    assert(bytes[line.len() as int] == second[0]);
    assert(bytes[line.len() as int + 1] == second[1]);
}

/// A frame holds exactly as many bytes of payload as its header line
/// declares: where a stream starts with a frame, the payload has the
/// declared length, it stands right behind the two lines, and the frame
/// ends with it.
pub proof fn lemma_frame_has_declared_length(s: Seq<u8>)
    requires
        frame_of(s) is Ok,
    ensures
        ({
            let (payload, consumed) = frame_of(s)->Ok_0;
            let start = line_end(s, line_end(s, 0));
            &&& content_len_of(decode_utf8(s.subrange(0, line_end(s, 0)))) == Some(
                payload.len() as usize,
            )
            &&& consumed == start + payload.len()
            &&& consumed <= s.len()
            &&& payload == s.subrange(start, consumed)
        }),
{
    lemma_line_end_bounds(s, 0);
    lemma_line_end_bounds(s, line_end(s, 0));
}

proof fn lemma_line_end_bounds(s: Seq<u8>, from: int)
    requires
        0 <= from <= s.len(),
    ensures
        from <= line_end(s, from) <= s.len(),
    decreases s.len() - from,
{
    if from < s.len() && s[from] != 10u8 {
        lemma_line_end_bounds(s, from + 1);
    }
}

/// A frame that was written is read back: for every payload, whatever
/// follows it in the stream, reading takes the header and exactly the
/// bytes of the payload.
pub proof fn lemma_frame_read_back(payload: Seq<u8>, rest: Seq<u8>)
    requires
        payload.len() <= usize::MAX,
    ensures
        frame_of(frame_bytes(payload) + rest) == Ok::<(Seq<u8>, int), FramingError>(
            (payload, frame_bytes(payload).len() as int),
        ),
{
    let len = payload.len();
    let header = header_bytes(len);
    let s = frame_bytes(payload) + rest;
    lemma_header_starts_stream(len, payload + rest);
    assert(s =~= header + (payload + rest));
    assert(s.subrange(header.len() as int, header.len() as int + len) =~= payload);
}

/// A stream that ends before the declared number of payload bytes holds
/// no frame.
pub proof fn lemma_frame_truncated(len: nat, available: Seq<u8>)
    requires
        len <= usize::MAX,
        available.len() < len,
    ensures
        frame_of(header_bytes(len) + available) == Err::<(Seq<u8>, int), FramingError>(
            FramingError::Truncated,
        ),
{
    lemma_header_starts_stream(len, available);
}

/// What reading finds in a stream that starts with the header for `len`.
proof fn lemma_header_starts_stream(len: nat, tail: Seq<u8>)
    requires
        len <= usize::MAX,
    ensures
        ({
            let s = header_bytes(len) + tail;
            let start = header_bytes(len).len() as int;
            frame_of(s) == if len <= tail.len() {
                Ok::<(Seq<u8>, int), FramingError>((s.subrange(start, start + len), start + len))
            } else {
                Err::<(Seq<u8>, int), FramingError>(FramingError::Truncated)
            }
        }),
{
    let header = header_bytes(len);
    let s = header + tail;
    let line = header_line(len);
    lemma_header_bytes_text(len);
    lemma_header_line_declares(len);
    let h = line.len() as int;
    assert forall|j: int| 0 <= j < h - 1 implies #[trigger] s[j] != 10u8 by {
        assert(s[j] == header[j]);
    }
    assert(s[h - 1] == header[h - 1]);
    assert(s[h] == header[h]);
    assert(s[h + 1] == header[h + 1]);
    lemma_line_end_at(s, 0, h - 1);
    lemma_line_end_at(s, h, h + 1);
    assert(s.subrange(0, h) =~= header.subrange(0, h));
    assert(s.subrange(h, h + 2) =~= header.subrange(h, header.len() as int));
    encode_utf8_valid_utf8(line);
    encode_utf8_valid_utf8("\r\n"@);
    encode_utf8_decode_utf8(line);
}

fn find_line_end(input: &[u8], from: usize) -> (r: usize)
    requires
        from <= input.len(),
    ensures
        r == line_end(input@, from as int),
        from <= r <= input.len(),
{
    let mut i: usize = from;
    while i < input.len()
        invariant
            from <= i <= input.len(),
            line_end(input@, i as int) == line_end(input@, from as int),
        decreases input.len() - i,
    {
        if input[i] == 10u8 {
            return i + 1;
        }
        i += 1;
    }
    i
}

/// Reads the frame at the start of `input`, which holds all that can be
/// read before the end of the stream.
pub fn read_frame(input: &[u8]) -> (r: Result<Frame, FramingError>)
    ensures
        match r {
            Ok(frame) => frame_of(input@) == Ok::<(Seq<u8>, int), FramingError>(
                (frame.payload@, frame.consumed as int),
            ),
            Err(e) => frame_of(input@) == Err::<(Seq<u8>, int), FramingError>(e),
        },
{
    let header_end = find_line_end(input, 0);
    let start = find_line_end(input, header_end);
    let header = match text_of(slice_subrange(input, 0, header_end)) {
        Some(text) => text,
        None => {
            return Err(FramingError::InvalidText);
        },
    };
    if text_of(slice_subrange(input, header_end, start)).is_none() {
        return Err(FramingError::InvalidText);
    }
    proof {
        encode_utf8_decode_utf8(header@);
    }
    let len = match get_content_len(header) {
        Some(len) => len,
        None => {
            return Err(FramingError::MissingLength);
        },
    };
    if len > input.len() - start {
        return Err(FramingError::Truncated);
    }
    let payload = slice_to_vec(slice_subrange(input, start, start + len));
    Ok(Frame { payload, consumed: start + len })
}

/// The frame that carries `payload`: its header, then the payload itself.
pub fn write_frame(payload: &[u8]) -> (out: Vec<u8>)
    ensures
        out@ == frame_bytes(payload@),
{
    let mut out = encode_header(payload.len());
    out.extend_from_slice(payload);
    out
}

} // verus!
