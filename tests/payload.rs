use mijiabt::payload::parse_mijia_bt_data;

fn frame(len: usize, fill: &[(usize, u8)]) -> Vec<u8> {
    let mut v = vec![0u8; len];
    for (i, b) in fill {
        v[*i] = *b;
    }
    v
}

#[test]
fn full_frame_splits_into_two_little_endian_fields() {
    let v = frame(18, &[(14, 0x10), (15, 0x00), (16, 0x0F), (17, 0x02)]);
    assert_eq!(parse_mijia_bt_data(&v), (16, 527));
}

#[test]
fn full_frame_ignores_leading_bytes() {
    let mut v = frame(18, &[(14, 0xE8), (15, 0x00), (16, 0xC4), (17, 0x01)]);
    for i in 0..14 {
        v[i] = 0xAB;
    }
    assert_eq!(parse_mijia_bt_data(&v), (232, 452));
}

#[test]
fn full_frame_high_bytes() {
    let v = frame(18, &[(14, 0xFF), (15, 0xFF), (16, 0x00), (17, 0x80)]);
    assert_eq!(parse_mijia_bt_data(&v), (65535, 32768));
}

#[test]
fn partial_frame_humidity() {
    let v = frame(16, &[(11, 6), (14, 0x05), (15, 0x00)]);
    assert_eq!(parse_mijia_bt_data(&v), (0, 5));
}

#[test]
fn partial_frame_temperature() {
    let v = frame(16, &[(11, 4), (14, 0x05), (15, 0x00)]);
    assert_eq!(parse_mijia_bt_data(&v), (5, 0));
}

#[test]
fn partial_frame_other_discriminator() {
    let v = frame(16, &[(11, 9), (14, 0x05), (15, 0x00)]);
    assert_eq!(parse_mijia_bt_data(&v), (0, 0));
}

#[test]
fn other_lengths_decode_to_zero() {
    for len in [0usize, 1, 15, 17, 19, 32] {
        let v = vec![0x11u8; len];
        assert_eq!(parse_mijia_bt_data(&v), (0, 0), "length {}", len);
    }
}

#[test]
fn encoded_full_frame_round_trips() {
    for (t, h) in [(0u16, 0u16), (1, 1), (235, 512), (65535, 256), (4096, 65534)] {
        let mut v = vec![0x5Au8; 14];
        v.extend_from_slice(&t.to_le_bytes());
        v.extend_from_slice(&h.to_le_bytes());
        assert_eq!(parse_mijia_bt_data(&v), (t, h));
    }
}
