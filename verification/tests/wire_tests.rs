//! Framing and field codec behaviour.

use ibkr::text::{i32_text, parse_i32_bytes, parse_u32_bytes};
use ibkr::wire::{encode_frame, extract_message, make_field, make_message, parse_fields, FieldIterator};

#[test]
fn test_make_field() {
    assert_eq!(make_field("hello"), "hello\0");
    assert_eq!(make_field(i32_text(42).as_str()), "42\0");
    assert_eq!(make_field(format!("{}", 3.14).as_str()), "3.14\0");
}

#[test]
fn test_extract_message() {
    // Build a test message: length prefix + payload
    let payload = b"6\0test\0";
    let mut buf = Vec::new();
    buf.extend(&(payload.len() as u32).to_be_bytes());
    buf.extend(payload);

    let (msg, rest) = extract_message(&buf).unwrap();
    assert_eq!(msg, payload);
    assert!(rest.is_empty());
}

#[test]
fn test_extract_message_incomplete() {
    // Not enough data for length prefix
    assert!(extract_message(&[0, 0]).is_none());

    // Length says 10 bytes, but only 5 available
    let buf = [0, 0, 0, 10, 1, 2, 3, 4, 5];
    assert!(extract_message(&buf).is_none());
}

#[test]
fn test_field_iterator() {
    let buf = b"17\0123\045.5\0hello\0";
    let mut iter = FieldIterator::new(buf);

    assert_eq!(iter.next_u32(), Some(17));
    assert_eq!(iter.next_i32(), 123);
    assert_eq!(iter.next_string().unwrap().parse::<f64>().unwrap(), 45.5);
    assert_eq!(iter.next_string(), Some("hello".to_string()));
    assert_eq!(iter.next_string(), None);
}

#[test]
fn frame_round_trip() {
    let payload = b"20\0AAPL\0";
    let frame = encode_frame(payload);
    let (msg, rest) = extract_message(&frame).unwrap();
    assert_eq!(msg, payload);
    assert!(rest.is_empty());
}

#[test]
fn frame_round_trip_empty_payload() {
    let frame = encode_frame(b"");
    assert_eq!(frame, vec![0, 0, 0, 0]);
    let (msg, rest) = extract_message(&frame).unwrap();
    assert!(msg.is_empty());
    assert!(rest.is_empty());
}

#[test]
fn partial_reads_reassemble_like_single_shot() {
    let payload = b"17\x001001\x00bars\x00";
    let frame = encode_frame(payload);
    let (single_msg, single_rest) = extract_message(&frame).unwrap();
    for k in 0..=frame.len() {
        // Feed the frame as two appends split at byte k.
        let mut buf: Vec<u8> = frame[..k].to_vec();
        // A strict prefix never yields a frame early.
        if k < frame.len() {
            assert!(extract_message(&buf).is_none());
        }
        buf.extend_from_slice(&frame[k..]);
        let (msg, rest) = extract_message(&buf).unwrap();
        assert_eq!(msg, single_msg);
        assert_eq!(rest, single_rest);
    }
}

#[test]
fn two_frames_in_one_read() {
    let mut buf = encode_frame(b"a\0");
    buf.extend_from_slice(&encode_frame(b"b\0"));
    let (first, rest) = extract_message(&buf).unwrap();
    assert_eq!(first, b"a\0");
    let (second, rest2) = extract_message(&rest).unwrap();
    assert_eq!(second, b"b\0");
    assert!(rest2.is_empty());
}

#[test]
fn message_fields_round_trip() {
    let fields = vec!["42".to_string(), "".to_string(), "hello".to_string()];
    let msg = make_message(&fields);
    assert_eq!(msg, "42\0\0hello\0");
    let bytes = msg.into_bytes();
    let mut iter = FieldIterator::new(&bytes);
    // The empty token is the absent-value sentinel: it reads back as 0.
    assert_eq!(iter.next_i32(), 42);
    assert_eq!(iter.next_i32(), 0);
    assert_eq!(iter.next_string(), Some("hello".to_string()));
    assert_eq!(iter.next_string(), None);
}

#[test]
fn non_ascii_field_decodes_back() {
    let fields = vec!["héllo wörld".to_string()];
    let msg = make_message(&fields);
    let bytes = msg.into_bytes();
    let mut iter = FieldIterator::new(&bytes);
    assert_eq!(iter.next_string(), Some("héllo wörld".to_string()));
}

#[test]
fn parse_fields_keeps_positions_drops_trailing_empty() {
    let fields = parse_fields(b"a\0\0b\0");
    assert_eq!(fields, vec!["a".to_string(), "".to_string(), "b".to_string()]);
    assert!(parse_fields(b"").is_empty());
    // An unterminated tail token is kept.
    assert_eq!(parse_fields(b"a\0tail"), vec!["a".to_string(), "tail".to_string()]);
}

#[test]
fn field_iterator_skip_and_remaining() {
    let buf = b"1\x002\x003\x004\x00";
    let mut iter = FieldIterator::new(buf);
    iter.skip(2);
    assert_eq!(iter.remaining(), vec!["3".to_string(), "4".to_string()]);
    iter.skip(10);
    assert!(iter.remaining().is_empty());
    assert_eq!(iter.next_i32(), 0);
    assert!(!iter.next_bool());
}

#[test]
fn signed_and_bounds_parsing() {
    assert_eq!(parse_i32_bytes(b"-2147483648"), i32::MIN);
    assert_eq!(parse_i32_bytes(b"2147483647"), i32::MAX);
    // Out of range or malformed tokens default to 0.
    assert_eq!(parse_i32_bytes(b"2147483648"), 0);
    assert_eq!(parse_i32_bytes(b"-2147483649"), 0);
    assert_eq!(parse_i32_bytes(b"12x"), 0);
    assert_eq!(parse_i32_bytes(b""), 0);
    assert_eq!(parse_u32_bytes(b"4294967295"), Some(4294967295));
    assert_eq!(parse_u32_bytes(b"4294967296"), None);
    assert_eq!(parse_u32_bytes(b"-1"), None);
    assert_eq!(parse_u32_bytes(b""), None);
}

#[test]
fn invalid_utf8_token_degrades_to_empty_text() {
    // 0xFF is never valid UTF-8; the malformed field reads as the default
    // empty string while the rest of the message stays intact.
    let buf = [0xFF, 0xFE, 0, b'o', b'k', 0];
    let mut iter = FieldIterator::new(&buf);
    assert_eq!(iter.next_string(), Some(String::new()));
    assert_eq!(iter.next_string(), Some("ok".to_string()));
}

#[test]
fn bool_fields_follow_numeric_text() {
    let buf = b"1\x000\x005\x00\x00junk\x00";
    let mut iter = FieldIterator::new(buf);
    assert!(iter.next_bool());
    assert!(!iter.next_bool());
    assert!(iter.next_bool()); // any nonzero number is true
    assert!(!iter.next_bool()); // the absent-value sentinel is false
    assert!(!iter.next_bool()); // malformed text defaults to 0, so false
}

#[test]
fn i32_text_round_trips() {
    for n in [0, 1, -1, 9, 10, -10, 1000, i32::MAX, i32::MIN] {
        let text = i32_text(n);
        assert_eq!(text, n.to_string());
        assert_eq!(parse_i32_bytes(text.as_bytes()), n);
    }
}
