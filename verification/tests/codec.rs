use xgpu_common::ipc::codec::{FrameCodec, FrameCodecError};
use xgpu_common::ipc::framer::header::{
    DEFAULT_MAX_FRAME_LEN, FRAME_HEADER_LEN, FRAME_MAGIC_NUMBER, MAX_FRAME_LEN,
};

fn single_frame_round_trip(framer: FrameCodec, original_payload: &[u8]) {
    // The buffer size is dynamically calculated based on the framer's header length.
    let mut encode_buffer = vec![0u8; framer.header_len() + original_payload.len() + 16];

    let payload_len = original_payload.len();

    // 1. Prepare buffer
    let (header, payload) = framer.prepare_buffer(&mut encode_buffer).unwrap();

    // 2. Write payload
    let payload = &mut payload[..payload_len];
    payload.copy_from_slice(original_payload);

    // 3. Encode frame
    let frame_len = framer.encode_frame(header, payload).unwrap();

    // 4. Decode frame
    let decode_buffer = &encode_buffer[..frame_len];
    let (consumed, decoded_payload) = framer.decode_frame(decode_buffer).unwrap().unwrap();

    // 5. Verify
    let expected_len = framer.header_len() + payload_len;
    assert_eq!(
        frame_len, expected_len,
        "Total written bytes should be header_len + payload_len"
    );
    assert_eq!(
        consumed, expected_len,
        "Consumed bytes should equal the total frame length"
    );
    assert_eq!(
        decoded_payload, original_payload,
        "Decoded payload must match the original payload"
    );
}

fn multi_frame_round_trip(framer: FrameCodec, payloads: &[&[u8]]) {
    let total_size: usize = payloads.iter().map(|p| framer.header_len() + p.len()).sum();
    let mut buffer = vec![0u8; total_size];

    let mut encode_pos = 0;
    for payload in payloads {
        let frame_buff = &mut buffer[encode_pos..];

        let (header, payload_buff) = framer.prepare_buffer(frame_buff).unwrap();

        let payload_len = payload.len();
        payload_buff[..payload_len].copy_from_slice(payload);

        let frame_len = framer
            .encode_frame(header, &payload_buff[..payload_len])
            .unwrap();
        encode_pos += frame_len;
    }

    let mut decode_pos = 0;
    let mut decoded_payloads = Vec::with_capacity(payloads.len());

    while decode_pos < encode_pos {
        let remaining_data = &buffer[decode_pos..];

        match framer.decode_frame(remaining_data).unwrap() {
            Some((consumed, payload)) => {
                decoded_payloads.push(payload.to_vec());
                decode_pos += consumed;
            }
            None => panic!("Incomplete frame at position {}", decode_pos),
        }
    }

    assert_eq!(
        payloads.len(),
        decoded_payloads.len(),
        "Decoded frame count mismatch"
    );

    for (original, decoded) in payloads.iter().zip(&decoded_payloads) {
        assert_eq!(original, decoded, "Payload content mismatch");
    }
}

fn encode(framer: &FrameCodec, payload: &[u8]) -> Vec<u8> {
    let mut frame = vec![0u8; FRAME_HEADER_LEN + payload.len()];
    frame[FRAME_HEADER_LEN..].copy_from_slice(payload);
    let (header, body) = frame.split_at_mut(FRAME_HEADER_LEN);
    assert_eq!(framer.encode_frame(header, body), Ok(FRAME_HEADER_LEN + payload.len()));
    frame
}

#[test]
fn round_trip_standard_payload() {
    single_frame_round_trip(FrameCodec::default(), b"Hello, Framer!");
}

#[test]
fn round_trip_empty_payload() {
    single_frame_round_trip(FrameCodec::default(), b"");
}

#[test]
fn round_trip_single_byte_payload() {
    single_frame_round_trip(FrameCodec::default(), b"\x42");
}

#[test]
fn round_trip_multiple_frame() {
    let payloads: &[&[u8]] = &[
        b"",
        b"\0",
        b"\x01\x02\x03",
        b"First frame payload",
        b"The quick brown fox jumps over a lazy dog",
    ];
    multi_frame_round_trip(FrameCodec::default(), &payloads);
}

#[test]
fn header_is_magic_length_checksum() {
    let framer = FrameCodec::default();
    assert_eq!(framer.limit(), DEFAULT_MAX_FRAME_LEN);
    assert_eq!(framer.limit(), 16 * 1024 * 1024);
    assert_eq!(framer.header_len(), 12);

    let frame = encode(&framer, b"123456789");
    assert_eq!(&frame[0..4], &0x78464D45u32.to_le_bytes());
    assert_eq!(&frame[0..4], b"EMFx");
    assert_eq!(FRAME_MAGIC_NUMBER, 0x78464D45);
    assert_eq!(&frame[4..8], &9u32.to_le_bytes());
    // The checksum covers the length field and the payload.
    let mut covered = 9u32.to_le_bytes().to_vec();
    covered.extend_from_slice(b"123456789");
    assert_eq!(&frame[8..12], &crc32fast::hash(&covered).to_le_bytes());
    // The check value of CRC-32 over "123456789" alone is 0xCBF43926.
    assert_eq!(crc32fast::hash(b"123456789"), 0xCBF43926);
    assert_eq!(&frame[12..], b"123456789");

    let empty = encode(&framer, b"");
    assert_eq!(&empty[4..8], &[0, 0, 0, 0]);
    assert_eq!(&empty[8..12], &crc32fast::hash(&[0, 0, 0, 0]).to_le_bytes());
    assert_eq!(framer.decode_frame(&empty), Ok(Some((12, &[][..]))));
}

#[test]
fn frame_too_large() {
    let framer = FrameCodec::new(1024);
    let payload = vec![0u8; 2000];
    let mut header = [0u8; 12];
    assert_eq!(
        framer.encode_frame(&mut header, &payload),
        Err(FrameCodecError::FrameTooLarge { limit: 1024, actual: 2012 })
    );
    assert_eq!(header, [0u8; 12]);

    // The largest payload that fits, and the first that does not.
    assert_eq!(framer.encode_frame(&mut header, &payload[..1012]), Ok(1024));
    assert_eq!(
        framer.encode_frame(&mut header, &payload[..1013]),
        Err(FrameCodecError::FrameTooLarge { limit: 1024, actual: 1025 })
    );

    // A decoder refuses a frame beyond its limit before it looks further.
    let large = encode(&FrameCodec::default(), &payload);
    assert_eq!(
        framer.decode_frame(&large),
        Err(FrameCodecError::FrameTooLarge { limit: 1024, actual: 2012 })
    );
    assert_eq!(
        framer.decode_frame(&large[..12]),
        Err(FrameCodecError::FrameTooLarge { limit: 1024, actual: 2012 })
    );
}

#[test]
fn limits_of_the_codec() {
    assert_eq!(FrameCodec::new(12).limit(), 12);
    assert_eq!(FrameCodec::new(MAX_FRAME_LEN).limit(), u32::MAX as usize);
    let smallest = FrameCodec::new(12);
    let mut header = [0u8; 12];
    assert_eq!(smallest.encode_frame(&mut header, &[]), Ok(12));
    assert_eq!(
        smallest.encode_frame(&mut header, &[1]),
        Err(FrameCodecError::FrameTooLarge { limit: 12, actual: 13 })
    );
}

#[test]
fn short_buffers() {
    let framer = FrameCodec::default();
    let mut short = [0u8; 11];
    assert_eq!(
        framer.prepare_buffer(&mut short).unwrap_err(),
        FrameCodecError::InsufficientBuffer { required: 12, capacity: 11 }
    );
    assert_eq!(
        framer.encode_frame(&mut short, b"abc"),
        Err(FrameCodecError::InsufficientBuffer { required: 12, capacity: 11 })
    );
    let mut exact = [7u8; 12];
    let (header, payload) = framer.prepare_buffer(&mut exact).unwrap();
    assert_eq!(header.len(), 12);
    assert_eq!(payload.len(), 0);
}

#[test]
fn incomplete_frames_are_not_yet_frames() {
    let framer = FrameCodec::default();
    let frame = encode(&framer, b"payload");
    for len in 0..frame.len() {
        assert_eq!(framer.decode_frame(&frame[..len]), Ok(None), "prefix of {} bytes", len);
    }
    assert_eq!(framer.decode_frame(&frame), Ok(Some((19, &b"payload"[..]))));

    // What follows a frame does not matter.
    let mut longer = frame.clone();
    longer.extend_from_slice(b"the start of the next frame");
    assert_eq!(framer.decode_frame(&longer), Ok(Some((19, &b"payload"[..]))));
}

#[test]
fn corruption_is_detected() {
    let framer = FrameCodec::default();
    let frame = encode(&framer, b"some payload worth protecting");
    let stored = u32::from_le_bytes([frame[8], frame[9], frame[10], frame[11]]);

    for index in 0..frame.len() {
        for bit in 0..8 {
            let mut bad = frame.clone();
            bad[index] ^= 1 << bit;
            let found = framer.decode_frame(&bad);
            if index < 4 {
                let actual = u32::from_le_bytes([bad[0], bad[1], bad[2], bad[3]]);
                assert_eq!(
                    found,
                    Err(FrameCodecError::MagicNumberMismatch {
                        expected: 0x78464D45,
                        actual
                    })
                );
            } else if index < 8 {
                // The frame looks longer or shorter than it is: it is never
                // handed out as it stands.
                assert!(
                    matches!(
                        found,
                        Ok(None)
                            | Err(FrameCodecError::ChecksumMismatch { .. })
                            | Err(FrameCodecError::FrameTooLarge { .. })
                    ),
                    "byte {} bit {}: {:?}",
                    index,
                    bit,
                    found
                );
            } else if index < 12 {
                let expected = u32::from_le_bytes([bad[8], bad[9], bad[10], bad[11]]);
                assert_eq!(
                    found,
                    Err(FrameCodecError::ChecksumMismatch { expected, actual: stored })
                );
            } else {
                assert!(
                    matches!(
                        found,
                        Err(FrameCodecError::ChecksumMismatch { expected, .. }) if expected == stored
                    ),
                    "byte {} bit {}: {:?}",
                    index,
                    bit,
                    found
                );
            }
        }
    }
}
