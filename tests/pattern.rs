use ws2812_pio::encoder::encode_frame;
use ws2812_pio::pattern::{build_buffer, solid_fill, Pixel, SolidPattern, STRIP_LEN};

#[test]
fn pixel_bytes_are_green_red_blue() {
    assert_eq!(Pixel::grb(0x14, 0xFF, 0x93).bytes(), [0x14, 0xFF, 0x93]);
    let p = Pixel { green: 1, red: 2, blue: 3 };
    assert_eq!(p.bytes(), [1, 2, 3]);
}

#[test]
fn single_pixel_buffer_is_padded_to_four() {
    assert_eq!(solid_fill(Pixel::grb(0x00, 0xFF, 0x00), 1), vec![0x00, 0xFF, 0x00, 0x00]);
}

#[test]
fn buffers_are_padded_with_zeros_only_as_needed() {
    let p = Pixel::grb(0xAA, 0xBB, 0xCC);
    assert_eq!(solid_fill(p, 0), Vec::<u8>::new());
    assert_eq!(solid_fill(p, 4).len(), 12);
    assert_eq!(solid_fill(p, 2), vec![0xAA, 0xBB, 0xCC, 0xAA, 0xBB, 0xCC, 0, 0]);
    assert_eq!(solid_fill(p, 3).len(), 12);
    assert_eq!(solid_fill(p, 3)[9..], [0, 0, 0]);
}

#[test]
fn build_buffer_keeps_pixel_order() {
    let pixels = [Pixel::grb(0xFF, 0xFF, 0xFF), Pixel::grb(0x00, 0xFF, 0xFF), Pixel::grb(0xFF, 0x00, 0x00)];
    assert_eq!(
        build_buffer(&pixels),
        vec![0xFF, 0xFF, 0xFF, 0x00, 0xFF, 0xFF, 0xFF, 0x00, 0x00, 0, 0, 0]
    );
}

#[test]
fn pink_strip_frame() {
    let buf = SolidPattern::strip(Pixel::grb(0x14, 0xFF, 0x93)).next_buffer();
    assert_eq!(buf.len(), 48);
    let words = encode_frame(&buf).unwrap();
    assert_eq!(words.len(), 12);
    assert_eq!(words[0], 0x14FF9314);
    assert_eq!(words[1], 0xFF9314FF);
    assert_eq!(words[2], 0x9314FF93);
    assert_eq!(words[11], 0x93000000);
}

#[test]
fn red_strip_frame_ends_in_padding() {
    let pattern = SolidPattern::strip(Pixel::grb(0x00, 0xFF, 0x00));
    assert_eq!(pattern.count, STRIP_LEN);
    let first = pattern.next_buffer();
    assert_eq!(first, pattern.next_buffer());
    let words = encode_frame(&first).unwrap();
    assert_eq!(words.len(), 12);
    assert_eq!(words[0], 0x00FF0000);
    assert_eq!(*words.last().unwrap(), 0x00000000);
}
