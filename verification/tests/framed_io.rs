use pipeline::framed_io::{check_end, decode_frame, encode_frame, FrameError, MAX_FRAME_LEN};

#[test]
fn frame_is_length_then_payload() {
    assert_eq!(encode_frame(b"hi"), Ok(vec![0, 0, 0, 2, b'h', b'i']));
    assert_eq!(encode_frame(b""), Ok(vec![0, 0, 0, 0]));
    let payload = vec![1u8; 0x01_02_03];
    let frame = encode_frame(&payload).unwrap();
    assert_eq!(&frame[..4], &[0, 1, 2, 3]);
    assert_eq!(&frame[4..], &payload[..]);
}

#[test]
fn frame_round_trip() {
    let mut buffer = Vec::new();
    buffer.extend(encode_frame(b"{\"a\":1}").unwrap());
    buffer.extend(encode_frame(b"").unwrap());
    buffer.extend(encode_frame(b"second").unwrap());
    assert_eq!(decode_frame(&mut buffer), Ok(Some(b"{\"a\":1}".to_vec())));
    assert_eq!(decode_frame(&mut buffer), Ok(Some(Vec::new())));
    assert_eq!(decode_frame(&mut buffer), Ok(Some(b"second".to_vec())));
    assert_eq!(decode_frame(&mut buffer), Ok(None));
    assert!(buffer.is_empty());
    assert_eq!(check_end(&buffer), Ok(()));
}

#[test]
fn partial_frame_waits_and_is_an_error_at_the_end() {
    let frame = encode_frame(b"hello").unwrap();
    for n in 0..frame.len() {
        let mut buffer = frame[..n].to_vec();
        assert_eq!(decode_frame(&mut buffer), Ok(None));
        assert_eq!(buffer, &frame[..n]);
        if n > 0 {
            assert_eq!(check_end(&buffer), Err(FrameError::Truncated));
        }
    }
    let mut buffer = frame[..3].to_vec();
    buffer.extend_from_slice(&frame[3..]);
    assert_eq!(decode_frame(&mut buffer), Ok(Some(b"hello".to_vec())));
}

#[test]
fn oversized_frames_are_refused() {
    let payload = vec![0u8; MAX_FRAME_LEN + 1];
    assert_eq!(encode_frame(&payload), Err(FrameError::TooBig));
    let payload = vec![0u8; MAX_FRAME_LEN];
    let frame = encode_frame(&payload).unwrap();
    assert_eq!(&frame[..4], &[0, 0x80, 0, 0]);
    let mut buffer = vec![0, 0x80, 0, 1, 9, 9];
    assert_eq!(decode_frame(&mut buffer), Err(FrameError::TooBig));
    assert_eq!(buffer, vec![0, 0x80, 0, 1, 9, 9]);
    let mut buffer = vec![0xff, 0xff, 0xff, 0xff];
    assert_eq!(decode_frame(&mut buffer), Err(FrameError::TooBig));
}
