use sptcloud::error::ProtocolError;
use sptcloud::frame::{
    decode_length, encode_length, recv_frame, send_frame, ByteOrder, FrameReceiver,
};

fn sample(length: usize) -> Vec<u8> {
    (0..length).map(|i| (i * 7 + 3) as u8).collect()
}

#[test]
fn length_field_is_little_endian_digits() {
    let field = encode_length(0x0102_0304_0506_0708, ByteOrder::LittleEndian);
    assert_eq!(field, vec![8, 7, 6, 5, 4, 3, 2, 1]);
}

#[test]
fn length_field_is_big_endian_digits() {
    let field = encode_length(0x0102_0304_0506_0708, ByteOrder::BigEndian);
    assert_eq!(field, vec![1, 2, 3, 4, 5, 6, 7, 8]);
}

#[test]
fn length_field_of_zero_and_of_the_largest_length() {
    assert_eq!(encode_length(0, ByteOrder::LittleEndian), vec![0; 8]);
    assert_eq!(encode_length(u64::MAX, ByteOrder::BigEndian), vec![255; 8]);
    assert_eq!(encode_length(256, ByteOrder::LittleEndian), vec![0, 1, 0, 0, 0, 0, 0, 0]);
    assert_eq!(encode_length(100_000_000, ByteOrder::LittleEndian), 100_000_000u64.to_le_bytes().to_vec());
    assert_eq!(encode_length(100_000_000, ByteOrder::BigEndian), 100_000_000u64.to_be_bytes().to_vec());
}

#[test]
fn decode_length_reads_what_encode_length_wrote() {
    for order in [ByteOrder::LittleEndian, ByteOrder::BigEndian] {
        for length in [0u64, 1, 255, 256, 65_535, 100_000_000, 200_000_000, u64::MAX - 1, u64::MAX] {
            let field = encode_length(length, order);
            assert_eq!(field.len(), 8);
            assert_eq!(decode_length(&field, order), Some(length));
        }
    }
}

#[test]
fn decode_length_agrees_with_std() {
    let field = [0x10, 0x32, 0x54, 0x76, 0x98, 0xba, 0xdc, 0xfe];
    assert_eq!(decode_length(&field, ByteOrder::LittleEndian), Some(u64::from_le_bytes(field)));
    assert_eq!(decode_length(&field, ByteOrder::BigEndian), Some(u64::from_be_bytes(field)));
}

#[test]
fn decode_length_wants_eight_bytes() {
    assert_eq!(decode_length(&[], ByteOrder::LittleEndian), None);
    assert_eq!(decode_length(&[1, 2, 3, 4, 5, 6, 7], ByteOrder::LittleEndian), None);
    assert_eq!(decode_length(&[1, 2, 3, 4, 5, 6, 7, 8, 9], ByteOrder::BigEndian), None);
}

#[test]
fn native_order_is_the_order_of_this_machine() {
    let order = ByteOrder::native();
    for length in [1u64, 2, 0x0102_0304_0506_0708, 100_000_000, u64::MAX] {
        assert_eq!(encode_length(length, order), length.to_ne_bytes().to_vec());
        assert_eq!(decode_length(&length.to_ne_bytes(), order), Some(length));
    }
}

#[test]
fn probe_of_the_number_one_tells_the_order() {
    assert_eq!(ByteOrder::of_probe(&1u64.to_le_bytes()), ByteOrder::LittleEndian);
    assert_eq!(ByteOrder::of_probe(&1u64.to_be_bytes()), ByteOrder::BigEndian);
    assert_eq!(ByteOrder::of_probe(&[]), ByteOrder::BigEndian);
}

#[test]
fn frame_is_length_field_then_payload() {
    let bytes = send_frame(b"hello", ByteOrder::LittleEndian);
    assert_eq!(bytes, vec![5, 0, 0, 0, 0, 0, 0, 0, b'h', b'e', b'l', b'l', b'o']);
    let bytes = send_frame(b"hello", ByteOrder::BigEndian);
    assert_eq!(bytes, vec![0, 0, 0, 0, 0, 0, 0, 5, b'h', b'e', b'l', b'l', b'o']);
}

#[test]
fn frame_of_an_empty_payload_is_the_length_field_alone() {
    assert_eq!(send_frame(&[], ByteOrder::LittleEndian), vec![0; 8]);
    assert_eq!(recv_frame(&[0; 8], 0, ByteOrder::LittleEndian), Ok(vec![]));
}

#[test]
fn frame_round_trip() {
    for order in [ByteOrder::LittleEndian, ByteOrder::BigEndian, ByteOrder::native()] {
        for length in [0usize, 1, 7, 8, 9, 255, 256, 257, 4096, 70_000] {
            let payload = sample(length);
            let bytes = send_frame(&payload, order);
            assert_eq!(bytes.len(), 8 + length);
            assert_eq!(recv_frame(&bytes, 100_000_000, order), Ok(payload));
        }
    }
}

#[test]
fn frame_round_trip_at_the_limit() {
    let payload = sample(1000);
    let bytes = send_frame(&payload, ByteOrder::LittleEndian);
    assert_eq!(recv_frame(&bytes, 1000, ByteOrder::LittleEndian), Ok(payload));
    assert_eq!(
        recv_frame(&bytes, 999, ByteOrder::LittleEndian),
        Err(ProtocolError::Oversized { declared: 1000, limit: 999 })
    );
}

#[test]
fn receiver_leaves_what_follows_the_frame() {
    let mut bytes = send_frame(b"abc", ByteOrder::BigEndian);
    bytes.extend_from_slice(b"trailing bytes");
    assert_eq!(recv_frame(&bytes, 10, ByteOrder::BigEndian), Ok(b"abc".to_vec()));
}

#[test]
fn oversized_length_is_refused_on_the_length_field_alone() {
    let field = encode_length(200_000_000, ByteOrder::LittleEndian);
    assert_eq!(
        recv_frame(&field, 100_000_000, ByteOrder::LittleEndian),
        Err(ProtocolError::Oversized { declared: 200_000_000, limit: 100_000_000 })
    );
    let mut with_some_payload = field.clone();
    with_some_payload.extend_from_slice(&[1, 2, 3]);
    assert_eq!(
        recv_frame(&with_some_payload, 100_000_000, ByteOrder::LittleEndian),
        Err(ProtocolError::Oversized { declared: 200_000_000, limit: 100_000_000 })
    );
    assert_eq!(
        recv_frame(&encode_length(100_000_001, ByteOrder::BigEndian), 100_000_000, ByteOrder::BigEndian),
        Err(ProtocolError::Oversized { declared: 100_000_001, limit: 100_000_000 })
    );
    assert_eq!(
        recv_frame(&[255; 8], 100_000_000, ByteOrder::BigEndian),
        Err(ProtocolError::Oversized { declared: u64::MAX, limit: 100_000_000 })
    );
}

#[test]
fn stream_that_ends_in_the_length_field_is_a_short_read() {
    assert_eq!(
        recv_frame(&[], 10, ByteOrder::LittleEndian),
        Err(ProtocolError::ShortLength { received: 0 })
    );
    assert_eq!(
        recv_frame(&[5, 0, 0], 10, ByteOrder::LittleEndian),
        Err(ProtocolError::ShortLength { received: 3 })
    );
    assert_eq!(
        recv_frame(&[5, 0, 0, 0, 0, 0, 0], 10, ByteOrder::LittleEndian),
        Err(ProtocolError::ShortLength { received: 7 })
    );
}

#[test]
fn stream_that_ends_in_the_payload_is_a_short_read() {
    let mut bytes = encode_length(10, ByteOrder::LittleEndian);
    assert_eq!(
        recv_frame(&bytes, 10, ByteOrder::LittleEndian),
        Err(ProtocolError::ShortPayload { declared: 10, received: 0 })
    );
    bytes.extend_from_slice(&[1, 2, 3, 4]);
    assert_eq!(
        recv_frame(&bytes, 10, ByteOrder::LittleEndian),
        Err(ProtocolError::ShortPayload { declared: 10, received: 4 })
    );
    bytes.extend_from_slice(&[5, 6, 7, 8, 9]);
    assert_eq!(
        recv_frame(&bytes, 10, ByteOrder::LittleEndian),
        Err(ProtocolError::ShortPayload { declared: 10, received: 9 })
    );
    bytes.push(10);
    assert_eq!(recv_frame(&bytes, 10, ByteOrder::LittleEndian), Ok(vec![1, 2, 3, 4, 5, 6, 7, 8, 9, 10]));
}

#[test]
fn byte_order_matters() {
    let bytes = send_frame(b"ab", ByteOrder::LittleEndian);
    assert_eq!(
        recv_frame(&bytes, 100, ByteOrder::BigEndian),
        Err(ProtocolError::Oversized { declared: 2 << 56, limit: 100 })
    );
}

#[test]
fn receiver_asks_for_the_length_field_then_for_the_payload() {
    let mut receiver = FrameReceiver::new(100, ByteOrder::LittleEndian);
    assert_eq!(receiver.max_length(), 100);
    assert_eq!(receiver.order(), ByteOrder::LittleEndian);
    assert_eq!(receiver.wanted(), 8);
    assert!(!receiver.is_complete());
    assert_eq!(receiver.feed(&[3, 0, 0]), 3);
    assert_eq!(receiver.wanted(), 5);
    assert_eq!(receiver.feed(&[0, 0, 0, 0, 0]), 5);
    assert_eq!(receiver.wanted(), 3);
    assert!(!receiver.is_complete());
    assert_eq!(receiver.feed(&[b'x']), 1);
    assert_eq!(receiver.wanted(), 2);
    assert_eq!(receiver.feed(&[b'y', b'z']), 2);
    assert_eq!(receiver.wanted(), 0);
    assert!(receiver.is_complete());
    assert_eq!(receiver.finish(), Ok(b"xyz".to_vec()));
}

#[test]
fn receiver_fed_byte_by_byte_receives_the_frame() {
    let payload = sample(300);
    let bytes = send_frame(&payload, ByteOrder::BigEndian);
    let mut receiver = FrameReceiver::new(1000, ByteOrder::BigEndian);
    for (i, byte) in bytes.iter().enumerate() {
        assert!(receiver.wanted() > 0, "nothing wanted before byte {}", i);
        assert_eq!(receiver.feed(&[*byte]), 1);
    }
    assert_eq!(receiver.wanted(), 0);
    assert_eq!(receiver.finish(), Ok(payload));
}

#[test]
fn receiver_takes_no_more_than_the_frame() {
    let mut bytes = send_frame(b"abcd", ByteOrder::LittleEndian);
    bytes.extend_from_slice(b"next frame");
    let mut receiver = FrameReceiver::new(100, ByteOrder::LittleEndian);
    assert_eq!(receiver.feed(&bytes), 12);
    assert_eq!(receiver.wanted(), 0);
    assert_eq!(receiver.feed(b"more"), 0);
    assert_eq!(receiver.finish(), Ok(b"abcd".to_vec()));
}

#[test]
fn receiver_reads_no_payload_of_an_oversized_frame() {
    let mut bytes = encode_length(200_000_000, ByteOrder::LittleEndian);
    bytes.extend_from_slice(&sample(64));
    let mut receiver = FrameReceiver::new(100_000_000, ByteOrder::LittleEndian);
    assert_eq!(receiver.feed(&bytes), 8);
    assert_eq!(receiver.wanted(), 0);
    assert!(!receiver.is_complete());
    assert_eq!(receiver.feed(&bytes[8..]), 0);
    assert_eq!(
        receiver.finish(),
        Err(ProtocolError::Oversized { declared: 200_000_000, limit: 100_000_000 })
    );
}

#[test]
fn receiver_that_is_cut_short_reports_how_far_it_came() {
    let receiver = FrameReceiver::new(100, ByteOrder::LittleEndian);
    assert_eq!(receiver.finish(), Err(ProtocolError::ShortLength { received: 0 }));
    let mut receiver = FrameReceiver::new(100, ByteOrder::LittleEndian);
    receiver.feed(&[9, 0, 0, 0]);
    assert_eq!(receiver.finish(), Err(ProtocolError::ShortLength { received: 4 }));
    let mut receiver = FrameReceiver::new(100, ByteOrder::LittleEndian);
    receiver.feed(&[9, 0, 0, 0, 0, 0, 0, 0, 1, 2]);
    assert_eq!(receiver.wanted(), 7);
    assert_eq!(receiver.finish(), Err(ProtocolError::ShortPayload { declared: 9, received: 2 }));
}

#[test]
fn receiver_in_pieces_agrees_with_receiver_in_one_piece() {
    let payload = sample(50);
    let mut stream = send_frame(&payload, ByteOrder::LittleEndian);
    stream.extend_from_slice(&[9, 9, 9]);
    for limit in [10u64, 50, 1000] {
        let whole = recv_frame(&stream, limit, ByteOrder::LittleEndian);
        for cut in 0..stream.len() {
            let mut receiver = FrameReceiver::new(limit, ByteOrder::LittleEndian);
            let first = receiver.feed(&stream[..cut]);
            let second = receiver.feed(&stream[cut..]);
            let mut in_one = FrameReceiver::new(limit, ByteOrder::LittleEndian);
            assert_eq!(first + second, in_one.feed(&stream));
            assert_eq!(receiver.finish(), whole);
        }
    }
}
