use renderer::color::RGB;
use renderer::frame::Image;
use renderer::MESSAGE;

fn channels(c: RGB) -> (u8, u8, u8) {
    (c.r, c.g, c.b)
}

#[test]
fn message_greets() {
    assert_eq!(MESSAGE, "hello from renderer!");
}

#[test]
fn black_is_all_zero() {
    assert_eq!(channels(RGB::black()), (0, 0, 0));
}

#[test]
fn from_word_reads_three_low_bytes() {
    assert_eq!(channels(RGB::from(0x00_12_34_56)), (0x12, 0x34, 0x56));
    assert_eq!(channels(RGB::from(0x00_AA_AA)), (0x00, 0xAA, 0xAA));
    let c: RGB = 0x00_FF_00_80u32.into();
    assert_eq!(channels(c), (0xFF, 0x00, 0x80));
}

#[test]
fn from_word_ignores_high_byte() {
    assert_eq!(channels(RGB::from(0xFF_12_34_56)), channels(RGB::from(0x00_12_34_56)));
    assert_eq!(channels(RGB::from(0xFFFF_FFFF)), (0xFF, 0xFF, 0xFF));
}

#[test]
fn new_image_is_teal() {
    let img = Image::new(3, 2);
    assert_eq!(img.width, 3);
    assert_eq!(img.height, 2);
    assert_eq!(img.pixels.len(), 6);
    for p in &img.pixels {
        assert_eq!(channels(*p), (0x00, 0xAA, 0xAA));
    }
}

#[test]
fn new_empty_image_has_no_pixels() {
    assert!(Image::new(0, 7).pixels.is_empty());
    assert!(Image::new(7, 0).pixels.is_empty());
}

#[test]
fn fill_replaces_every_pixel() {
    let mut img = Image::new(4, 4);
    img.fill(RGB { r: 1, g: 2, b: 3 });
    assert_eq!(img.pixels.len(), 16);
    assert!(img.pixels.iter().all(|p| channels(*p) == (1, 2, 3)));
}

#[test]
fn fill_restores_size_from_dimensions() {
    let mut img = Image { width: 2, height: 3, pixels: Vec::new() };
    img.fill(RGB { r: 9, g: 8, b: 7 });
    assert_eq!(img.pixels.len(), 6);
    img.pixels.push(RGB::black());
    img.fill(RGB { r: 5, g: 5, b: 5 });
    assert_eq!(img.pixels.len(), 6);
    assert!(img.pixels.iter().all(|p| channels(*p) == (5, 5, 5)));
}

#[test]
fn write_out_writes_rgba_with_opaque_alpha() {
    let img = Image {
        width: 2,
        height: 1,
        pixels: vec![RGB { r: 1, g: 2, b: 3 }, RGB { r: 4, g: 5, b: 6 }],
    };
    let mut buf = [0u8; 8];
    img.write_out(&mut buf);
    assert_eq!(buf, [1, 2, 3, 0xFF, 4, 5, 6, 0xFF]);
}

#[test]
fn write_out_keeps_bytes_after_the_image() {
    let img = Image { width: 1, height: 1, pixels: vec![RGB { r: 10, g: 20, b: 30 }] };
    let mut buf = [7u8; 10];
    img.write_out(&mut buf);
    assert_eq!(buf, [10, 20, 30, 0xFF, 7, 7, 7, 7, 7, 7]);
}

#[test]
fn write_out_stops_at_last_whole_chunk() {
    let img = Image {
        width: 3,
        height: 1,
        pixels: vec![RGB { r: 1, g: 1, b: 1 }, RGB { r: 2, g: 2, b: 2 }, RGB { r: 3, g: 3, b: 3 }],
    };
    let mut buf = [0u8; 7];
    img.write_out(&mut buf);
    assert_eq!(buf, [1, 1, 1, 0xFF, 0, 0, 0]);
    let mut empty: [u8; 0] = [];
    img.write_out(&mut empty);
}

#[test]
fn filled_image_writes_out_its_color() {
    let mut img = Image::new(2, 2);
    img.fill(RGB { r: 0x11, g: 0x22, b: 0x33 });
    let mut buf = vec![0u8; 16];
    img.write_out(&mut buf);
    for chunk in buf.chunks(4) {
        assert_eq!(chunk, &[0x11, 0x22, 0x33, 0xFF]);
    }
}
