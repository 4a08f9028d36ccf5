use renderer_core::{
    color_hex_bytes, encode_rgba_blob, load_4byte_to_u32, parse_hex_color, parse_rgba_blob,
    u32_to_u8_vec, Color8, ControlState,
};

#[test]
fn u32_splits_into_big_endian_bytes() {
    assert_eq!(u32_to_u8_vec(0x12345678), vec![0x12, 0x34, 0x56, 0x78]);
    assert_eq!(u32_to_u8_vec(0), vec![0, 0, 0, 0]);
    assert_eq!(u32_to_u8_vec(u32::MAX), vec![255, 255, 255, 255]);
}

#[test]
fn four_bytes_read_back_big_endian() {
    assert_eq!(load_4byte_to_u32(&[0x12, 0x34, 0x56, 0x78]), 0x12345678);
    assert_eq!(load_4byte_to_u32(&[0, 0, 1, 0]), 256);
}

#[test]
fn byte_round_trip() {
    for v in [0u32, 1, 255, 256, 0xDEADBEEF, u32::MAX] {
        let bytes = u32_to_u8_vec(v);
        assert_eq!(load_4byte_to_u32(&bytes), v);
    }
}

#[test]
fn blob_encodes_header_then_data() {
    let data = vec![9u8, 8, 7, 6];
    let blob = encode_rgba_blob(2, 1, &data);
    assert_eq!(blob, vec![0, 0, 0, 2, 0, 0, 0, 1, 9, 8, 7, 6]);
}

#[test]
fn blob_round_trip() {
    let data = vec![1u8, 2, 3, 4, 5, 6, 7, 8];
    let blob = encode_rgba_blob(640, 480, &data);
    let (w, h, d) = parse_rgba_blob(&blob).unwrap();
    assert_eq!(w, 640);
    assert_eq!(h, 480);
    assert_eq!(d, data);
}

#[test]
fn short_blob_is_rejected() {
    assert!(parse_rgba_blob(&vec![1, 2, 3, 4, 5, 6, 7]).is_none());
    let (w, h, d) = parse_rgba_blob(&vec![0, 0, 0, 1, 0, 0, 0, 1]).unwrap();
    assert_eq!((w, h), (1, 1));
    assert!(d.is_empty());
}

#[test]
fn hex_color_parses() {
    assert_eq!(
        parse_hex_color(b"#ff00aa"),
        Some(Color8 { r: 255, g: 0, b: 0xaa, a: 255 })
    );
    assert_eq!(
        parse_hex_color(b"#B3b2C1"),
        Some(Color8 { r: 0xb3, g: 0xb2, b: 0xc1, a: 255 })
    );
    assert_eq!(parse_hex_color(b"ff00aa"), None);
    assert_eq!(parse_hex_color(b"#ff00a"), None);
    assert_eq!(parse_hex_color(b"#ff00ag"), None);
    assert_eq!(parse_hex_color(b""), None);
}

#[test]
fn hex_color_writes() {
    let c = Color8 { r: 0xb2, g: 0x00, b: 0x1f, a: 255 };
    assert_eq!(color_hex_bytes(c), b"#b2001f".to_vec());
}

#[test]
fn hex_color_round_trip() {
    for c in [
        Color8 { r: 0, g: 0, b: 0, a: 255 },
        Color8 { r: 178, g: 178, b: 178, a: 255 },
        Color8 { r: 255, g: 1, b: 16, a: 255 },
    ] {
        let text = color_hex_bytes(c);
        assert_eq!(parse_hex_color(&text), Some(c));
    }
}

#[test]
fn control_state_is_plain() {
    let c = ControlState {
        movement_x: 3,
        movement_y: -4,
        on_click: true,
        wheel_delta_y: 120,
        on_wheel: false,
        on_shift: true,
    };
    assert_eq!(c, c);
}
