use probe_rs_debugadapter::framing::{read_frame, write_frame, FramingError};
use probe_rs_debugadapter::header::{encode_header, get_content_len};

#[test]
fn parse_valid_header() {
    let header = "Content-Length: 234\r\n";

    assert_eq!(234, get_content_len(&header).unwrap());
}

#[test]
fn header_without_length_is_refused() {
    assert_eq!(None, get_content_len(""));
    assert_eq!(None, get_content_len("Content-Length:\r\n"));
    assert_eq!(None, get_content_len("Content-Length: abc\r\n"));
    assert_eq!(None, get_content_len("Content-Length: -5\r\n"));
    assert_eq!(None, get_content_len("Content-Length: 12x\r\n"));
    assert_eq!(None, get_content_len("Content-Length: +\r\n"));
}

#[test]
fn header_length_forms() {
    assert_eq!(Some(0), get_content_len("Content-Length: 0\r\n"));
    assert_eq!(Some(7), get_content_len("Content-Length: +7\r\n"));
    assert_eq!(Some(7), get_content_len("  Content-Length:\t007 trailing\r\n"));
    assert_eq!(Some(42), get_content_len("Content-Length: 42\u{a0}\u{2003}"));
    assert_eq!(None, get_content_len("Content-Length: 42\u{a0}x"));
    assert_eq!(
        Some(usize::MAX),
        get_content_len(&format!("Content-Length: {}\r\n", usize::MAX))
    );
    assert_eq!(
        None,
        get_content_len(&format!("Content-Length: {}0\r\n", usize::MAX))
    );
}

#[test]
fn header_is_written_in_decimal() {
    assert_eq!(b"Content-Length: 0\r\n\r\n".to_vec(), encode_header(0));
    assert_eq!(b"Content-Length: 315\r\n\r\n".to_vec(), encode_header(315));
    assert_eq!(
        format!("Content-Length: {}\r\n\r\n", usize::MAX).into_bytes(),
        encode_header(usize::MAX)
    );
}

#[test]
fn frame_is_read_back() {
    let payload = b"{\"seq\":1}";
    let mut stream = write_frame(payload);
    assert_eq!(b"Content-Length: 9\r\n\r\n{\"seq\":1}".to_vec(), stream);
    stream.extend_from_slice(b"Content-Length: 2\r\n\r\n{}");
    let frame = read_frame(&stream).unwrap();
    assert_eq!(payload.to_vec(), frame.payload);
    assert_eq!(30, frame.consumed);
    let next = read_frame(&stream[frame.consumed..]).unwrap();
    assert_eq!(b"{}".to_vec(), next.payload);
    assert_eq!(23, next.consumed);
}

#[test]
fn short_payload_is_a_framing_error() {
    assert_eq!(
        Err(FramingError::Truncated),
        read_frame(b"Content-Length: 10\r\n\r\n{}").map(|f| f.payload)
    );
    assert_eq!(
        Ok(b"{}".to_vec()),
        read_frame(b"Content-Length: 2\r\n\r\n{}").map(|f| f.payload)
    );
}

#[test]
fn bad_header_is_a_framing_error() {
    assert_eq!(
        Err(FramingError::MissingLength),
        read_frame(b"").map(|f| f.payload)
    );
    assert_eq!(
        Err(FramingError::MissingLength),
        read_frame(b"Content-Length\r\n\r\n{}").map(|f| f.payload)
    );
    assert_eq!(
        Err(FramingError::InvalidText),
        read_frame(b"Content-Length: 2\xff\r\n\r\n{}").map(|f| f.payload)
    );
    assert_eq!(
        Err(FramingError::InvalidText),
        read_frame(b"Content-Length: 2\r\n\xff\n{}").map(|f| f.payload)
    );
}

#[test]
fn second_line_is_discarded_unread() {
    assert_eq!(
        Ok(b"{}".to_vec()),
        read_frame(b"Content-Length: 2\nanything\n{}").map(|f| f.payload)
    );
}
