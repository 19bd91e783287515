use dfs_node::frame::{
    bytes_wanted, decode_frame, decode_payload, decode_text, encode_frame, FrameError, MAX_PAYLOAD,
};
use dfs_node::varint::{encode_length, read_prefix, Prefix};

fn frame_of(text: &str) -> Vec<u8> {
    encode_frame(text).expect("the text fits a frame")
}

/// Reads one message from `bytes` as the peer-to-peer stack's own reader does.
fn stack_read(bytes: &[u8]) -> std::io::Result<Vec<u8>> {
    let mut socket = futures::io::Cursor::new(bytes.to_vec());
    futures::executor::block_on(libp2p::core::upgrade::read_length_prefixed(
        &mut socket,
        1_000_000,
    ))
}

#[test]
fn short_text_is_one_length_byte_then_the_text() {
    assert_eq!(frame_of("hi"), vec![2u8, b'h', b'i']);
}

#[test]
fn length_of_300_takes_two_bytes() {
    assert_eq!(encode_length(300), vec![0xACu8, 0x02]);
    let text = "a".repeat(300);
    let frame = frame_of(&text);
    assert_eq!(&frame[..2], &[0xACu8, 0x02]);
    assert_eq!(frame.len(), 302);
}

#[test]
fn lengths_at_the_digit_boundaries() {
    assert_eq!(encode_length(0), vec![0u8]);
    assert_eq!(encode_length(127), vec![0x7Fu8]);
    assert_eq!(encode_length(128), vec![0x80u8, 0x01]);
    assert_eq!(encode_length(16_383), vec![0xFFu8, 0x7F]);
    assert_eq!(encode_length(16_384), vec![0x80u8, 0x80, 0x01]);
    assert_eq!(encode_length(1_000_000), vec![0xC0u8, 0x84, 0x3D]);
}

#[test]
fn written_lengths_match_the_varint_crate() {
    for n in [0usize, 1, 127, 128, 255, 300, 16_383, 16_384, 999_999, 1_000_000, usize::MAX] {
        let mut buf = unsigned_varint::encode::usize_buffer();
        let expected = unsigned_varint::encode::usize(n, &mut buf).to_vec();
        assert_eq!(encode_length(n), expected, "length {}", n);
    }
}

#[test]
fn read_lengths_match_the_varint_crate() {
    for n in [0u64, 1, 127, 128, 300, 1_000_000, u64::MAX / 2, u64::MAX] {
        let mut buf = unsigned_varint::encode::u64_buffer();
        let bytes = unsigned_varint::encode::u64(n, &mut buf).to_vec();
        match read_prefix(&bytes) {
            Prefix::Complete { value, width } => {
                assert_eq!(value, n);
                assert_eq!(width, bytes.len());
            }
            _ => panic!("length {} was not read back", n),
        }
    }
}

#[test]
fn round_trip_of_plain_text() {
    assert_eq!(decode_frame(&frame_of("report.txt")), Ok("report.txt".to_string()));
}

#[test]
fn round_trip_of_text_beyond_ascii() {
    let text = "h\u{e9}llo \u{4e16}\u{754c} \u{1f600}";
    assert_eq!(decode_frame(&frame_of(text)), Ok(text.to_string()));
}

#[test]
fn round_trip_at_the_size_bound() {
    let text = "x".repeat(MAX_PAYLOAD);
    let frame = frame_of(&text);
    assert_eq!(frame.len(), MAX_PAYLOAD + 3);
    assert_eq!(decode_frame(&frame), Ok(text));
}

#[test]
fn text_over_the_bound_is_not_written() {
    let text = "x".repeat(MAX_PAYLOAD + 1);
    assert_eq!(encode_frame(&text), Err(FrameError::TooLarge));
}

#[test]
fn frame_over_the_bound_is_not_read() {
    let mut frame = encode_length(MAX_PAYLOAD + 1);
    frame.extend(std::iter::repeat(b'x').take(MAX_PAYLOAD + 1));
    assert_eq!(decode_frame(&frame), Err(FrameError::TooLarge));
    assert_eq!(decode_frame(&encode_length(MAX_PAYLOAD + 1)), Err(FrameError::TooLarge));
}

#[test]
fn empty_text_is_written_but_not_read_back() {
    assert_eq!(frame_of(""), vec![0u8]);
    assert_eq!(decode_frame(&[0u8]), Err(FrameError::UnexpectedEof));
}

#[test]
fn empty_stream_is_a_premature_end() {
    assert_eq!(decode_frame(&[]), Err(FrameError::UnexpectedEof));
}

#[test]
fn truncated_length_prefix_is_a_premature_end() {
    assert_eq!(decode_frame(&[0x80u8]), Err(FrameError::UnexpectedEof));
    assert_eq!(decode_frame(&[0xC0u8, 0x84]), Err(FrameError::UnexpectedEof));
}

#[test]
fn truncated_payload_is_a_premature_end() {
    assert_eq!(decode_frame(&[5u8, b'a', b'b']), Err(FrameError::UnexpectedEof));
    let frame = frame_of("report.txt");
    for kept in 0..frame.len() {
        assert_eq!(decode_frame(&frame[..kept]), Err(FrameError::UnexpectedEof), "kept {}", kept);
    }
}

#[test]
fn invalid_text_is_a_failure_of_its_own() {
    assert_eq!(decode_frame(&[1u8, 0xFF]), Err(FrameError::InvalidUtf8));
    assert_eq!(decode_frame(&[2u8, 0xC3, 0x28]), Err(FrameError::InvalidUtf8));
    assert_eq!(decode_text(vec![0xE2, 0x82]), Err(FrameError::InvalidUtf8));
    assert_eq!(decode_text(vec![0xE2, 0x82, 0xAC]), Ok("\u{20ac}".to_string()));
}

#[test]
fn ten_bytes_without_an_end_overflow() {
    assert_eq!(decode_frame(&[0x80u8; 10]), Err(FrameError::LengthOverflow));
    assert_eq!(decode_frame(&[0x80u8; 9]), Err(FrameError::UnexpectedEof));
    assert!(matches!(read_prefix(&[0xFFu8; 12]), Prefix::Overflow));
}

#[test]
fn redundant_zero_never_ends_a_prefix() {
    assert_eq!(decode_frame(&[0x81u8, 0x00, b'a']), Err(FrameError::UnexpectedEof));
    assert!(matches!(read_prefix(&[0x81u8, 0x00]), Prefix::Incomplete));
    let mut long = vec![0x81u8, 0x00];
    long.extend_from_slice(&[b'a'; 8]);
    assert_eq!(decode_frame(&long), Err(FrameError::LengthOverflow));
}

#[test]
fn ten_byte_prefix_keeps_the_low_64_bits() {
    let mut bytes = vec![0x83u8];
    bytes.extend_from_slice(&[0x80u8; 8]);
    bytes.push(0x02);
    match read_prefix(&bytes) {
        Prefix::Complete { value, width } => {
            assert_eq!(value, 3);
            assert_eq!(width, 10);
        }
        _ => panic!("a ten byte prefix is complete"),
    }
    bytes.extend_from_slice(b"abc");
    assert_eq!(decode_frame(&bytes), Ok("abc".to_string()));
    let mut high = vec![0x80u8; 9];
    high.push(0x01);
    match read_prefix(&high) {
        Prefix::Complete { value, .. } => assert_eq!(value, 1u64 << 63),
        _ => panic!("a ten byte prefix is complete"),
    }
    assert_eq!(decode_frame(&high), Err(FrameError::TooLarge));
}

#[test]
fn bytes_after_the_frame_are_left_alone() {
    let mut stream = frame_of("abc");
    stream.extend_from_slice(b"tail");
    assert_eq!(decode_frame(&stream), Ok("abc".to_string()));
    assert_eq!(decode_payload(&stream), Ok(b"abc".to_vec()));
}

#[test]
fn reader_is_told_how_much_to_fetch() {
    assert_eq!(bytes_wanted(&[]), 1);
    assert_eq!(bytes_wanted(&[0x80u8]), 1);
    assert_eq!(bytes_wanted(&[3u8]), 3);
    assert_eq!(bytes_wanted(&[3u8, b'a']), 2);
    assert_eq!(bytes_wanted(&[3u8, b'a', b'b', b'c']), 0);
    assert_eq!(bytes_wanted(&[0u8]), 0);
    assert_eq!(bytes_wanted(&encode_length(MAX_PAYLOAD)), MAX_PAYLOAD);
    assert_eq!(bytes_wanted(&encode_length(MAX_PAYLOAD + 1)), 0);
    assert_eq!(bytes_wanted(&[0x80u8; 10]), 0);
}

#[test]
fn frames_are_what_the_stack_writes() {
    for text in ["a", "report.txt", "h\u{e9}llo"] {
        let mut socket = futures::io::Cursor::new(Vec::new());
        futures::executor::block_on(libp2p::core::upgrade::write_length_prefixed(
            &mut socket,
            text.as_bytes(),
        ))
        .expect("writing to memory succeeds");
        assert_eq!(frame_of(text), socket.into_inner());
    }
}

#[test]
fn payloads_are_what_the_stack_reads() {
    let mut at_bound = encode_length(MAX_PAYLOAD + 1);
    at_bound.extend_from_slice(b"xyz");
    let mut folded = vec![0x83u8];
    folded.extend_from_slice(&[0x80u8; 8]);
    folded.push(0x02);
    folded.extend_from_slice(b"abc");
    let streams: Vec<Vec<u8>> = vec![
        vec![],
        vec![0],
        vec![0x80],
        vec![1, b'a'],
        vec![3, b'a'],
        vec![3, b'a', b'b', b'c', b'd'],
        vec![0x81, 0x00, b'a'],
        vec![0x80; 10],
        vec![0x80; 9],
        at_bound,
        folded,
        frame_of("report.txt"),
    ];
    for stream in streams {
        match (decode_payload(&stream), stack_read(&stream)) {
            (Ok(ours), Ok(theirs)) => assert_eq!(ours, theirs),
            (Err(FrameError::UnexpectedEof), Ok(theirs)) => assert!(theirs.is_empty()),
            (Err(FrameError::UnexpectedEof), Err(e)) => {
                assert_eq!(e.kind(), std::io::ErrorKind::UnexpectedEof)
            }
            (Err(FrameError::TooLarge), Err(e)) | (Err(FrameError::LengthOverflow), Err(e)) => {
                assert_eq!(e.kind(), std::io::ErrorKind::InvalidData)
            }
            (ours, theirs) => panic!("{:?} against {:?} on {:?}", ours, theirs, stream),
        }
    }
}
