//! The color animation of the render loop and how each of its frames is handed
//! to the consumer through a triple buffer.

use vstd::prelude::*;
use crate::color::RGB;
use crate::frame::{Image, pixel_count_fits, solid};

verus! {

/// The state of the color animation: the three channels and a frame counter
/// that decides which channel moves next.
#[derive(Clone, Copy, Debug)]
pub struct ColorCycle {
    pub r: u8,
    pub g: u8,
    pub b: u8,
    pub cycle: u8,
}

/// Whether one step from `s` would overflow a `u8` addition, where the
/// arithmetic that the step performs unchecked would panic: the `+ 1` after
/// `g.wrapping_mul(3)` or `b.wrapping_mul(5)` when that product is 255, or the
/// frame counter at 255.
pub open spec fn step_overflows(s: ColorCycle) -> bool {
    ||| s.cycle == 5 && (s.g * 3) % 256 == 255
    ||| s.cycle == 10 && (s.b * 5) % 256 == 255
    ||| s.cycle == 255
}

/// One step of the animation: on frame 0 red becomes `2r + 1`, on frame 5
/// green becomes `3g + 1`, on frame 10 blue becomes `5b + 1` (the products
/// wrapping modulo 256); frame 15 restarts the counter; then the counter
/// advances by one.
pub open spec fn step(s: ColorCycle) -> ColorCycle {
    let r = if s.cycle == 0 { ((s.r * 2) % 256 + 1) as u8 } else { s.r };
    let g = if s.cycle == 5 { ((s.g * 3) % 256 + 1) as u8 } else { s.g };
    let b = if s.cycle == 10 { ((s.b * 5) % 256 + 1) as u8 } else { s.b };
    let cycle = if s.cycle == 15 { 1u8 } else { (s.cycle + 1) as u8 };
    ColorCycle { r, g, b, cycle }
}

/// The color that the animation state shows.
pub open spec fn color_of(s: ColorCycle) -> RGB {
    RGB { r: s.r, g: s.g, b: s.b }
}

impl ColorCycle {
    /// The animation before its first frame: black, frame counter 0.
    pub fn new() -> (s: ColorCycle)
        ensures
            s == (ColorCycle { r: 0, g: 0, b: 0, cycle: 0 }),
    {
        ColorCycle { r: 0, g: 0, b: 0, cycle: 0 }
    }

    /// Whether the next step would overflow (see `step_overflows`).
    pub fn next_step_overflows(&self) -> (b: bool)
        ensures
            b == step_overflows(*self),
            b == ((self.cycle == 5 && self.g == 85) || (self.cycle == 10 && self.b == 51)
                || self.cycle == 255),
    {
        proof {
            lemma_step_overflows_exactly(*self);
        }
        (self.cycle == 5 && self.g.wrapping_mul(3) == 255) || (self.cycle == 10
            && self.b.wrapping_mul(5) == 255) || self.cycle == 255
    }

    /// Advance the animation by one frame and return the color to show.
    pub fn advance(&mut self) -> (color: RGB)
        requires
            !step_overflows(*old(self)),
        ensures
            *final(self) == step(*old(self)),
            color == color_of(*final(self)),
    {
        match self.cycle {
            0 => self.r = self.r.wrapping_mul(2) + 1,
            5 => self.g = self.g.wrapping_mul(3) + 1,
            10 => self.b = self.b.wrapping_mul(5) + 1,
            15 => self.cycle = 0,
            _ => {},
        }
        self.cycle = self.cycle + 1;
        RGB { r: self.r, g: self.g, b: self.b }
    }
}

#[verifier::external_type_specification]
#[verifier::external_body]
#[verifier::reject_recursive_types(T)]
pub struct ExInput<T: Send>(triple_buffer::Input<T>);

/// The buffers that the producer side of a triple buffer of images has held:
/// first the input buffer it holds now, then the values it has published, the
/// most recent first.
pub uninterp spec fn producer_buffers(input: triple_buffer::Input<Image>) -> Seq<Image>;

/// `triple_buffer::Input::input_buffer`: a shared reference to the input buffer
/// that the producer holds now. Nothing is said of what the consumer does.
#[verifier::external_body]
fn input_buffer(input: &triple_buffer::Input<Image>) -> (buf: &Image)
    ensures
        *buf == producer_buffers(*input)[0],
{
    input.input_buffer()
}

/// `triple_buffer::Input::input_buffer_mut`: the input buffer the producer
/// holds now, to be changed in place; what is written through it is that
/// buffer's new content, and nothing published before changes.
#[verifier::external_body]
fn input_buffer_mut(input: &mut triple_buffer::Input<Image>) -> (buf: &mut Image)
    ensures
        producer_buffers(*old(input)).len() > 0,
        *buf == producer_buffers(*old(input))[0],
        producer_buffers(*final(input)) == producer_buffers(*old(input)).update(0, *final(buf)),
{
    input.input_buffer_mut()
}

/// `triple_buffer::Input::publish`: the input buffer becomes the latest value
/// offered to the consumer and the producer receives another buffer, whose
/// content its documentation leaves open (so does this contract). The result,
/// whether an unread value was overwritten, depends on the consumer thread and
/// is left unstated.
#[verifier::external_body]
fn publish(input: &mut triple_buffer::Input<Image>) -> (overwrote_unread: bool)
    ensures
        producer_buffers(*final(input)).len() == producer_buffers(*old(input)).len() + 1,
        producer_buffers(*final(input)).skip(1) == producer_buffers(*old(input)),
{
    input.publish()
}

/// Whether the input buffer that the producer holds can be filled: its pixel
/// count fits a `u32`.
pub open spec fn input_fillable(input: triple_buffer::Input<Image>) -> bool {
    pixel_count_fits(producer_buffers(input)[0].width, producer_buffers(input)[0].height)
}

/// What `publish_color` leaves behind: the producer's former input buffer,
/// keeping its size and filled with `color`, is the latest value published;
/// the values published before stay behind it.
pub open spec fn published_color(
    before: triple_buffer::Input<Image>,
    after: triple_buffer::Input<Image>,
    color: RGB,
) -> bool {
    let b = producer_buffers(before);
    let a = producer_buffers(after);
    &&& a.len() == b.len() + 1
    &&& a.skip(2) == b.skip(1)
    &&& a[1].width == b[0].width
    &&& a[1].height == b[0].height
    &&& a[1].pixels@ == solid(b[0].width, b[0].height, color)
}

/// Fill the producer's input buffer with `color` in place and publish it.
pub fn publish_color(input: &mut triple_buffer::Input<Image>, color: RGB)
    requires
        input_fillable(*old(input)),
    ensures
        published_color(*old(input), *final(input), color),
{
    let ghost before = producer_buffers(*input);
    let buf = input_buffer_mut(input);
    buf.fill(color);
    let ghost filled = producer_buffers(*input);
    let _ = publish(input);
    proof {
        let after = producer_buffers(*input);
        assert(after[1] == after.skip(1)[0]);
        assert(filled.skip(1) =~= before.skip(1));
        assert(after.skip(2) =~= after.skip(1).skip(1));
    }
}

/// `publish_color` where the input buffer can be filled; otherwise nothing is
/// done. The result tells which happened.
pub fn try_publish_color(input: &mut triple_buffer::Input<Image>, color: RGB) -> (published: bool)
    ensures
        published == input_fillable(*old(input)),
        published ==> published_color(*old(input), *final(input), color),
        !published ==> *final(input) == *old(input),
{
    let buf = input_buffer(input);
    let w: u64 = buf.width as u64;
    let h: u64 = buf.height as u64;
    assert(w * h <= u64::MAX) by (nonlinear_arith)
        requires
            w <= u32::MAX,
            h <= u32::MAX,
    ;
    let count: u64 = w * h;
    if count <= u32::MAX as u64 {
        publish_color(input, color);
        true
    } else {
        false
    }
}

/// A published frame depends only on the size of the buffer it was drawn in
/// and on the color, never on what that buffer held before: two publications
/// of one color into buffers of one size publish equal pixels.
pub proof fn lemma_publish_forgets_old_pixels(
    before1: triple_buffer::Input<Image>,
    after1: triple_buffer::Input<Image>,
    before2: triple_buffer::Input<Image>,
    after2: triple_buffer::Input<Image>,
    color: RGB,
)
    requires
        published_color(before1, after1, color),
        published_color(before2, after2, color),
        producer_buffers(before1)[0].width == producer_buffers(before2)[0].width,
        producer_buffers(before1)[0].height == producer_buffers(before2)[0].height,
    ensures
        producer_buffers(after1)[1].pixels@ == producer_buffers(after2)[1].pixels@,
        producer_buffers(after1)[1].width == producer_buffers(after2)[1].width,
        producer_buffers(after1)[1].height == producer_buffers(after2)[1].height,
{
}

/// A step overflows exactly on three states: green 85 on frame 5 (`3 * 85 =
/// 255`, then `+ 1`), blue 51 on frame 10 (`5 * 51 = 255`, then `+ 1`), and
/// the counter at 255. In particular frame 15, where the counter restarts,
/// never overflows, nor does any frame other than 5 and 10 below 255.
pub proof fn lemma_step_overflows_exactly(s: ColorCycle)
    ensures
        step_overflows(s) <==> ((s.cycle == 5 && s.g == 85) || (s.cycle == 10 && s.b == 51)
            || s.cycle == 255),
{
    let g = s.g;
    let b = s.b;
    assert(((g as u32) * 3) % 256 == 255 <==> g == 85) by (bit_vector);
    assert(((b as u32) * 5) % 256 == 255 <==> b == 51) by (bit_vector);
    assert((g * 3) % 256 == ((g as u32) * 3) % 256);
    assert((b * 5) % 256 == ((b as u32) * 5) % 256);
}

/// Once the frame counter is in `0..=15`, every step keeps it in `1..=15`, so
/// the counter never overflows and frame 0 never comes back.
pub proof fn lemma_cycle_stays_in_range(s: ColorCycle)
    requires
        s.cycle <= 15,
    ensures
        1 <= step(s).cycle <= 15,
{
}

/// Red moves only on frame 0: a state past its first frame keeps its red.
pub proof fn lemma_red_moves_once(s: ColorCycle)
    requires
        1 <= s.cycle,
    ensures
        step(s).r == s.r,
{
}

} // verus!
