use ws2812_pio::encoder::{decode_frame, encode_frame, pack_word, unpack_word, EncodeError, FrameEncoder};

#[test]
fn pack_word_pink_pixel() {
    assert_eq!(pack_word(0x14, 0xFF, 0x93, 0x00), 0x14FF9300);
}

#[test]
fn pack_word_first_byte_is_most_significant() {
    assert_eq!(pack_word(0x01, 0x02, 0x03, 0x04), 0x01020304);
    assert_eq!(pack_word(0xFF, 0x00, 0x00, 0x00), 0xFF000000);
    assert_eq!(pack_word(0x00, 0x00, 0x00, 0xFF), 0x000000FF);
}

#[test]
fn unpack_word_splits_by_shifting() {
    assert_eq!(unpack_word(0x14FF9300), [0x14, 0xFF, 0x93, 0x00]);
    assert_eq!(unpack_word(0xDEADBEEF), [0xDE, 0xAD, 0xBE, 0xEF]);
}

#[test]
fn encode_pink_group() {
    assert_eq!(encode_frame(&[0x14, 0xFF, 0x93, 0x00]), Ok(vec![0x14FF9300]));
}

#[test]
fn encode_sixteen_groups_with_zero_padding_group() {
    let mut buf: Vec<u8> = Vec::new();
    for _ in 0..15 {
        buf.extend_from_slice(&[0x00, 0xFF, 0x00, 0x00]);
    }
    buf.extend_from_slice(&[0x00, 0x00, 0x00, 0x00]);
    let words = encode_frame(&buf).unwrap();
    assert_eq!(words.len(), 16);
    assert_eq!(words[0], 0x00FF0000);
    assert_eq!(words[14], 0x00FF0000);
    assert_eq!(words[15], 0x00000000);
}

#[test]
fn encode_empty_buffer_gives_empty_frame() {
    assert_eq!(encode_frame(&[]), Ok(vec![]));
}

#[test]
fn encode_refuses_unpadded_buffer() {
    assert_eq!(
        encode_frame(&[0x00, 0xFF, 0x00]),
        Err(EncodeError::UnalignedLength { len: 3 })
    );
    assert_eq!(
        encode_frame(&[1, 2, 3, 4, 5]),
        Err(EncodeError::UnalignedLength { len: 5 })
    );
}

#[test]
fn encode_keeps_buffer_order() {
    let words = encode_frame(&[1, 2, 3, 4, 5, 6, 7, 8, 9, 10, 11, 12]).unwrap();
    assert_eq!(words, vec![0x01020304, 0x05060708, 0x090A0B0C]);
}

#[test]
fn round_trip_reproduces_buffer() {
    let buf: Vec<u8> = (0u8..64).map(|b| b.wrapping_mul(37)).collect();
    let words = encode_frame(&buf).unwrap();
    assert_eq!(words.len(), buf.len() / 4);
    for (i, w) in words.iter().enumerate() {
        assert_eq!(unpack_word(*w).to_vec(), buf[4 * i..4 * i + 4].to_vec());
    }
    assert_eq!(decode_frame(&words), buf);
}

#[test]
fn frame_encoder_is_lazy_and_restartable() {
    let mut e = FrameEncoder::new(vec![0x14, 0xFF, 0x93, 0x00, 0x00, 0xFF, 0x00, 0x00]).unwrap();
    assert_eq!(e.word_count(), 2);
    assert_eq!(e.remaining(), 2);
    assert_eq!(e.next_word(), Some(0x14FF9300));
    assert_eq!(e.remaining(), 1);
    assert_eq!(e.next_word(), Some(0x00FF0000));
    assert_eq!(e.next_word(), None);
    assert_eq!(e.next_word(), None);
    e.restart();
    assert_eq!(e.next_word(), Some(0x14FF9300));
}

#[test]
fn frame_encoder_refuses_unpadded_buffer_at_construction() {
    assert!(matches!(
        FrameEncoder::new(vec![0x00, 0xFF, 0x00]),
        Err(EncodeError::UnalignedLength { len: 3 })
    ));
}
