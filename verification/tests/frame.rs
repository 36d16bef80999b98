use chess_server::frame::{decode, encode, FrameError, FrameReader, MAX_PAYLOAD};

fn payload_of(len: usize) -> Vec<u8> {
    let mut out: Vec<u8> = Vec::new();
    let mut i: usize = 0;
    while i < len {
        out.push((i * 7 + 3) as u8);
        i += 1;
    }
    out
}

#[test]
fn round_trip_for_every_length() {
    let mut len: usize = 0;
    while len <= 255 {
        let payload = payload_of(len);
        let frame = encode(&payload).unwrap();
        assert_eq!(frame.len(), len + 1);
        assert_eq!(frame[0] as usize, len);
        let (back, taken) = decode(&frame).unwrap();
        assert_eq!(back, payload);
        assert_eq!(taken, len + 1);
        len += 1;
    }
}

#[test]
fn encode_writes_length_then_payload() {
    assert_eq!(encode(b"W").unwrap(), vec![1u8, b'W']);
    assert_eq!(encode(b"").unwrap(), vec![0u8]);
    assert_eq!(encode(b"e2e4").unwrap(), vec![4u8, b'e', b'2', b'e', b'4']);
}

#[test]
fn encode_refuses_what_one_length_byte_cannot_announce() {
    assert_eq!(MAX_PAYLOAD, 255);
    assert_eq!(encode(&payload_of(256)), Err(FrameError::TooLong));
    assert_eq!(encode(&payload_of(1000)), Err(FrameError::TooLong));
    assert!(encode(&payload_of(255)).is_ok());
}

#[test]
fn decode_leaves_what_follows_the_frame() {
    let mut stream = encode(b"Greedy").unwrap();
    stream.extend_from_slice(&encode(b"e2e4").unwrap());
    let (first, taken) = decode(&stream).unwrap();
    assert_eq!(first, b"Greedy".to_vec());
    assert_eq!(taken, 7);
    let (second, taken_again) = decode(&stream[taken..]).unwrap();
    assert_eq!(second, b"e2e4".to_vec());
    assert_eq!(taken_again, 5);
}

#[test]
fn decode_refuses_a_stream_that_ends_early() {
    assert_eq!(decode(&[]), Err(FrameError::Truncated));
    assert_eq!(decode(&[3u8, 1, 2]), Err(FrameError::Truncated));
    assert_eq!(decode(&[255u8]), Err(FrameError::Truncated));
    assert_eq!(decode(&[0u8]).unwrap(), (Vec::<u8>::new(), 1usize));
}

#[test]
fn reader_drains_a_frame_that_arrives_byte_by_byte() {
    let frame = encode(b"Network").unwrap();
    let mut reader = FrameReader::new();
    assert_eq!(reader.missing(), 1);
    assert!(!reader.is_complete());
    assert_eq!(reader.accept(&frame[0..1]), 1);
    assert_eq!(reader.missing(), 7);
    let mut i: usize = 1;
    while i < frame.len() {
        assert!(!reader.is_complete());
        assert_eq!(reader.accept(&frame[i..i + 1]), 1);
        assert_eq!(reader.missing(), frame.len() - i - 1);
        i += 1;
    }
    assert!(reader.is_complete());
    assert_eq!(reader.finish().unwrap(), b"Network".to_vec());
}

#[test]
fn reader_takes_no_more_than_its_frame() {
    let mut stream = encode(b"abc").unwrap();
    stream.extend_from_slice(b"tail");
    let mut reader = FrameReader::new();
    assert_eq!(reader.accept(&stream), 4);
    assert!(reader.is_complete());
    assert_eq!(reader.missing(), 0);
    assert_eq!(reader.accept(b"more"), 0);
    assert_eq!(reader.finish().unwrap(), b"abc".to_vec());
}

#[test]
fn reader_in_uneven_pieces_gives_every_payload_back() {
    let mut len: usize = 0;
    while len <= 255 {
        let payload = payload_of(len);
        let frame = encode(&payload).unwrap();
        let mut reader = FrameReader::new();
        let mut at: usize = 0;
        let mut piece: usize = 1;
        while at < frame.len() {
            let end: usize = if at + piece > frame.len() { frame.len() } else { at + piece };
            assert_eq!(reader.accept(&frame[at..end]), end - at);
            at = end;
            piece = piece % 5 + 1;
        }
        assert_eq!(reader.finish().unwrap(), payload);
        len += 1;
    }
}

#[test]
fn reader_reports_a_stream_that_ended_inside_the_frame() {
    let reader = FrameReader::new();
    assert_eq!(reader.finish(), Err(FrameError::Truncated));
    let mut partial = FrameReader::new();
    assert_eq!(partial.accept(&[5u8, 1, 2]), 3);
    assert_eq!(partial.missing(), 3);
    assert_eq!(partial.finish(), Err(FrameError::Truncated));
}

#[test]
fn reader_of_an_empty_payload_is_whole_after_one_byte() {
    let mut reader = FrameReader::new();
    assert_eq!(reader.accept(&[0u8, 9, 9]), 1);
    assert!(reader.is_complete());
    assert_eq!(reader.finish().unwrap(), Vec::<u8>::new());
}
