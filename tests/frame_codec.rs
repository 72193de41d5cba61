use rc_link::frame::{decode_frame, decode_header, encode_frame, encode_header, write_frame, FrameError, MAX_PAYLOAD_LEN};

#[test]
fn header_is_big_endian() {
    assert_eq!(encode_header(0x0102_0304), [1, 2, 3, 4]);
    assert_eq!(encode_header(0), [0, 0, 0, 0]);
    assert_eq!(encode_header(u32::MAX), [255, 255, 255, 255]);
    assert_eq!(decode_header([0, 0, 1, 0]), 256);
    assert_eq!(decode_header([255, 255, 255, 255]), u32::MAX);
}

#[test]
fn frame_prefixes_length() {
    let f = encode_frame(&[7, 8, 9]).unwrap();
    assert_eq!(f, vec![0, 0, 0, 3, 7, 8, 9]);
    let empty = encode_frame(&[]).unwrap();
    assert_eq!(empty, vec![0, 0, 0, 0]);
}

#[test]
fn frame_round_trip_with_trailing_bytes() {
    let payload: Vec<u8> = (0..300u32).map(|i| (i % 251) as u8).collect();
    let mut bytes = encode_frame(&payload).unwrap();
    bytes.extend_from_slice(&[1, 2, 3]);
    let (back, used) = decode_frame(&bytes).unwrap();
    assert_eq!(back, payload);
    assert_eq!(used, 304);
}

#[test]
fn truncated_frames_are_reported() {
    assert_eq!(decode_frame(&[0, 0, 0]), Err(FrameError::Truncated));
    assert_eq!(decode_frame(&[0, 0, 0, 2, 9]), Err(FrameError::Truncated));
    assert_eq!(decode_frame(&[0, 0, 0, 1, 9]), Ok((vec![9], 5)));
}

#[test]
fn write_frame_appends() {
    let mut out = vec![42u8];
    assert_eq!(write_frame(&[5], &mut out), Ok(()));
    assert_eq!(out, vec![42, 0, 0, 0, 1, 5]);
}

#[test]
fn largest_payload_fits_a_header() {
    assert_eq!(MAX_PAYLOAD_LEN, u32::MAX as u64);
    assert_eq!(decode_header(encode_header(MAX_PAYLOAD_LEN as u32)) as u64, MAX_PAYLOAD_LEN);
}
