use renderer::animation::{publish_color, try_publish_color, ColorCycle};
use renderer::color::RGB;
use renderer::frame::Image;

fn state(c: &ColorCycle) -> (u8, u8, u8, u8) {
    (c.r, c.g, c.b, c.cycle)
}

#[test]
fn first_frame_lights_red() {
    let mut c = ColorCycle::new();
    let color = c.advance();
    assert_eq!((color.r, color.g, color.b), (1, 0, 0));
    assert_eq!(state(&c), (1, 0, 0, 1));
}

#[test]
fn channels_move_on_their_frames() {
    let mut c = ColorCycle::new();
    for _ in 0..6 {
        c.advance();
    }
    assert_eq!(state(&c), (1, 1, 0, 6));
    for _ in 0..5 {
        c.advance();
    }
    assert_eq!(state(&c), (1, 1, 1, 11));
    for _ in 0..5 {
        c.advance();
    }
    // frame 15 restarts the counter, which then advances to 1
    assert_eq!(state(&c), (1, 1, 1, 1));
    for _ in 0..15 {
        c.advance();
    }
    // red never moves again; green and blue each moved once more
    assert_eq!(state(&c), (1, 4, 6, 1));
}

#[test]
fn products_wrap() {
    let mut c = ColorCycle { r: 200, g: 100, b: 60, cycle: 0 };
    c.advance();
    assert_eq!(state(&c), (145, 100, 60, 1));
    let mut c = ColorCycle { r: 0, g: 100, b: 0, cycle: 5 };
    c.advance();
    assert_eq!(state(&c), (0, 45, 0, 6));
    let mut c = ColorCycle { r: 0, g: 0, b: 60, cycle: 10 };
    c.advance();
    assert_eq!(state(&c), (0, 0, 45, 11));
}

#[test]
fn overflowing_steps_are_detected() {
    assert!(ColorCycle { r: 0, g: 85, b: 0, cycle: 5 }.next_step_overflows());
    assert!(ColorCycle { r: 0, g: 0, b: 51, cycle: 10 }.next_step_overflows());
    assert!(ColorCycle { r: 0, g: 0, b: 0, cycle: 255 }.next_step_overflows());
    assert!(!ColorCycle { r: 0, g: 85, b: 0, cycle: 6 }.next_step_overflows());
    assert!(!ColorCycle { r: 255, g: 0, b: 0, cycle: 0 }.next_step_overflows());
    assert!(!ColorCycle::new().next_step_overflows());
}

#[test]
fn red_saturates_without_overflow() {
    let mut c = ColorCycle { r: 255, g: 0, b: 0, cycle: 0 };
    c.advance();
    assert_eq!(c.r, 255);
}

#[test]
fn published_color_reaches_the_consumer() {
    let (mut input, mut output) = triple_buffer::triple_buffer(&Image::new(2, 3));
    publish_color(&mut input, RGB { r: 7, g: 8, b: 9 });
    let seen = output.read();
    assert_eq!((seen.width, seen.height), (2, 3));
    assert_eq!(seen.pixels.len(), 6);
    assert!(seen.pixels.iter().all(|p| (p.r, p.g, p.b) == (7, 8, 9)));
}

#[test]
fn try_publish_publishes_fillable_buffer() {
    let (mut input, mut output) = triple_buffer::triple_buffer(&Image::new(1, 1));
    assert!(try_publish_color(&mut input, RGB { r: 1, g: 2, b: 3 }));
    let seen = output.read();
    assert_eq!((seen.pixels[0].r, seen.pixels[0].g, seen.pixels[0].b), (1, 2, 3));
}

#[test]
fn try_publish_refuses_oversized_buffer() {
    let huge = Image { width: 1 << 16, height: 1 << 16, pixels: Vec::new() };
    let (mut input, mut output) = triple_buffer::triple_buffer(&huge);
    assert!(!try_publish_color(&mut input, RGB { r: 1, g: 2, b: 3 }));
    assert!(!output.updated());
    assert!(input.input_buffer().pixels.is_empty());
}

#[test]
fn publication_forgets_previous_pixels() {
    let mut stale = Image::new(2, 2);
    stale.fill(RGB { r: 200, g: 100, b: 50 });
    stale.pixels.truncate(1);
    let (mut input_a, mut output_a) = triple_buffer::triple_buffer(&stale);
    let (mut input_b, mut output_b) = triple_buffer::triple_buffer(&Image::new(2, 2));
    let color = RGB { r: 3, g: 2, b: 1 };
    publish_color(&mut input_a, color);
    publish_color(&mut input_b, color);
    let a: Vec<(u8, u8, u8)> = output_a.read().pixels.iter().map(|p| (p.r, p.g, p.b)).collect();
    let b: Vec<(u8, u8, u8)> = output_b.read().pixels.iter().map(|p| (p.r, p.g, p.b)).collect();
    assert_eq!(a, b);
    assert_eq!(a.len(), 4);
}

#[test]
fn each_publication_is_seen_in_order() {
    let (mut input, mut output) = triple_buffer::triple_buffer(&Image::new(1, 1));
    let mut colors = ColorCycle::new();
    let mut last = RGB::black();
    for _ in 0..20 {
        last = colors.advance();
        publish_color(&mut input, last);
    }
    let seen = output.read().pixels[0];
    assert_eq!((seen.r, seen.g, seen.b), (last.r, last.g, last.b));
}
