//! Frame images: a width, a height and one color per pixel, in rows.

use vstd::prelude::*;
use crate::color::{RGB, rgb_of_word};

verus! {

/// An image held as a flat, row-major list of pixels.
#[derive(Clone)]
pub struct Image {
    pub width: u32,
    pub height: u32,
    pub pixels: Vec<RGB>,
}

/// The packed color that a new image starts with: teal, `0x00AAAA`.
pub open spec fn initial_color() -> RGB {
    rgb_of_word(0x00_AA_AAu32)
}

/// `width * height` pixels, all of one color.
pub open spec fn solid(width: u32, height: u32, color: RGB) -> Seq<RGB> {
    Seq::new((width * height) as nat, |_i: int| color)
}

/// Whether `width * height` fits the `u32` in which the pixel count is computed.
pub open spec fn pixel_count_fits(width: u32, height: u32) -> bool {
    width * height <= u32::MAX
}

/// Byte `k` of the RGBA encoding of `pixels`: four bytes per pixel, red, green,
/// blue, then an opaque alpha of `0xFF`.
pub open spec fn rgba_byte(pixels: Seq<RGB>, k: int) -> u8 {
    let p = pixels[k / 4];
    if k % 4 == 0 {
        p.r
    } else if k % 4 == 1 {
        p.g
    } else if k % 4 == 2 {
        p.b
    } else {
        0xFFu8
    }
}

/// How many whole pixels `write_out` stores into a buffer of `buf_len` bytes:
/// as many as both the image and the buffer's complete 4-byte chunks allow.
pub open spec fn pixels_written(pixels_len: nat, buf_len: nat) -> nat {
    if pixels_len <= buf_len / 4 {
        pixels_len
    } else {
        buf_len / 4
    }
}

/// The buffer `buf` after the RGBA bytes of `pixels` were written over its
/// leading whole chunks; the bytes after them are kept.
pub open spec fn written_out(pixels: Seq<RGB>, buf: Seq<u8>) -> Seq<u8> {
    let n = pixels_written(pixels.len(), buf.len());
    Seq::new(buf.len(), |k: int| if k < 4 * n { rgba_byte(pixels, k) } else { buf[k] })
}

impl Image {
    /// A `width` by `height` image filled with teal (`0x00AAAA`).
    pub fn new(width: u32, height: u32) -> (img: Image)
        requires
            pixel_count_fits(width, height),
        ensures
            img.width == width,
            img.height == height,
            img.pixels@ == solid(width, height, initial_color()),
            img.pixels@.len() == width * height,
            forall|i: int|
                0 <= i < img.pixels@.len() ==> #[trigger] img.pixels@[i] == (RGB {
                    r: 0x00,
                    g: 0xAA,
                    b: 0xAA,
                }),
    {
        let mut out = Image { width, height, pixels: Vec::new() };
        out.fill(RGB::from(0x00_AA_AAu32));
        proof {
            lemma_solid_exact(width, height, initial_color());
        }
        out
    }

    /// Fill this image with a given color.
    pub fn fill(&mut self, color: RGB)
        requires
            pixel_count_fits(old(self).width, old(self).height),
        ensures
            final(self).width == old(self).width,
            final(self).height == old(self).height,
            final(self).pixels@ == solid(old(self).width, old(self).height, color),
            final(self).pixels@.len() == old(self).width * old(self).height,
            forall|i: int|
                0 <= i < final(self).pixels@.len() ==> #[trigger] final(self).pixels@[i] == color,
    {
        self.pixels.clear();
        let count: u32 = self.width * self.height;
        self.pixels.resize(count as usize, color);
        assert(self.pixels@ =~= solid(self.width, self.height, color));
        proof {
            lemma_solid_exact(self.width, self.height, color);
        }
    }

    /// Write the pixels as RGBA bytes (alpha opaque) into the leading 4-byte
    /// chunks of `to`, stopping at whichever of the two runs out first.
    pub fn write_out(&self, to: &mut [u8])
        ensures
            final(to)@ == written_out(self.pixels@, old(to)@),
            final(to)@.len() == old(to)@.len(),
            forall|i: int|
                0 <= i < self.pixels@.len() && 4 * i + 4 <= old(to)@.len() ==> {
                    &&& final(to)@[4 * i] == (#[trigger] self.pixels@[i]).r
                    &&& final(to)@[4 * i + 1] == self.pixels@[i].g
                    &&& final(to)@[4 * i + 2] == self.pixels@[i].b
                    &&& final(to)@[4 * i + 3] == 0xFFu8
                },
            forall|k: int|
                4 * (if self.pixels@.len() <= old(to)@.len() / 4 {
                    self.pixels@.len()
                } else {
                    old(to)@.len() / 4
                }) <= k < old(to)@.len() ==> #[trigger] final(to)@[k] == old(to)@[k],
    {
        let n: usize = if self.pixels.len() <= to.len() / 4 {
            self.pixels.len()
        } else {
            to.len() / 4
        };
        let len: usize = to.len();
        let ghost original = to@;
        let mut i: usize = 0;
        while i < n
            invariant
                n == pixels_written(self.pixels@.len(), original.len()),
                n <= original.len() / 4,
                n <= self.pixels@.len(),
                len == original.len(),
                0 <= i <= n,
                to@.len() == original.len(),
                forall|k: int|
                    0 <= k < to@.len() ==> #[trigger] to@[k] == (if k < 4 * i {
                        rgba_byte(self.pixels@, k)
                    } else {
                        original[k]
                    }),
            decreases n - i,
        {
            let p = self.pixels[i];
            assert(4 * i + 4 <= to@.len()) by (nonlinear_arith)
                requires
                    i < n,
                    n <= original.len() / 4,
                    to@.len() == original.len(),
            ;
            let base: usize = 4 * i;
            to[base] = p.r;
            to[base + 1] = p.g;
            to[base + 2] = p.b;
            to[base + 3] = 0xFF;
            assert forall|k: int| 0 <= k < to@.len() implies #[trigger] to@[k] == (if k < 4 * (i
                + 1) {
                rgba_byte(self.pixels@, k)
            } else {
                original[k]
            }) by {
                if base <= k < base + 4 {
                    assert(k / 4 == i && k % 4 == k - base);
                }
            }
            i = i + 1;
        }
        assert(to@ =~= written_out(self.pixels@, original));
        proof {
            lemma_written_out_layout(self.pixels@, original);
        }
    }
}

/// The four RGBA bytes of one color with an opaque alpha: byte `c` of it.
pub open spec fn rgba_channel(color: RGB, c: int) -> u8 {
    if c == 0 {
        color.r
    } else if c == 1 {
        color.g
    } else if c == 2 {
        color.b
    } else {
        0xFFu8
    }
}

/// Writing out an image filled with one color repeats that color's RGBA bytes
/// (alpha opaque) over every chunk written.
pub proof fn lemma_solid_writes_out_color(width: u32, height: u32, color: RGB, buf: Seq<u8>)
    ensures
        forall|k: int|
            0 <= k < 4 * pixels_written((width * height) as nat, buf.len()) ==> #[trigger] written_out(
                solid(width, height, color),
                buf,
            )[k] == rgba_channel(color, k % 4),
{
    let pixels = solid(width, height, color);
    assert forall|k: int|
        0 <= k < 4 * pixels_written((width * height) as nat, buf.len()) implies #[trigger] written_out(
        pixels,
        buf,
    )[k] == rgba_channel(color, k % 4) by {
        assert(k < buf.len());
        assert(0 <= k / 4 < pixels.len());
    }
}

/// A solid image of `width` by `height` holds exactly `width * height`
/// pixels, every one of them the given color.
pub proof fn lemma_solid_exact(width: u32, height: u32, color: RGB)
    ensures
        solid(width, height, color).len() == width * height,
        forall|i: int|
            0 <= i < solid(width, height, color).len() ==> #[trigger] solid(width, height, color)[i]
                == color,
{
    assert((width * height) as nat == width * height) by (nonlinear_arith);
}

/// Writing pixels out keeps the buffer's length; every pixel `i` that has a
/// whole 4-byte chunk `4 * i .. 4 * i + 4` in the buffer lands there as red,
/// green, blue and an opaque alpha; every byte past the
/// `min(pixel count, buffer length / 4)` chunks written keeps its value.
pub proof fn lemma_written_out_layout(pixels: Seq<RGB>, buf: Seq<u8>)
    ensures
        written_out(pixels, buf).len() == buf.len(),
        forall|i: int|
            0 <= i < pixels.len() && 4 * i + 4 <= buf.len() ==> {
                &&& written_out(pixels, buf)[4 * i] == (#[trigger] pixels[i]).r
                &&& written_out(pixels, buf)[4 * i + 1] == pixels[i].g
                &&& written_out(pixels, buf)[4 * i + 2] == pixels[i].b
                &&& written_out(pixels, buf)[4 * i + 3] == 0xFFu8
            },
        forall|k: int|
            4 * (if pixels.len() <= buf.len() / 4 {
                pixels.len()
            } else {
                buf.len() / 4
            }) <= k < buf.len() ==> #[trigger] written_out(pixels, buf)[k] == buf[k],
{
    let w = written_out(pixels, buf);
    assert forall|i: int| 0 <= i < pixels.len() && 4 * i + 4 <= buf.len() implies {
        &&& w[4 * i] == (#[trigger] pixels[i]).r
        &&& w[4 * i + 1] == pixels[i].g
        &&& w[4 * i + 2] == pixels[i].b
        &&& w[4 * i + 3] == 0xFFu8
    } by {
        assert(i < buf.len() / 4);
        assert((4 * i) / 4 == i && (4 * i) % 4 == 0);
        assert((4 * i + 1) / 4 == i && (4 * i + 1) % 4 == 1);
        assert((4 * i + 2) / 4 == i && (4 * i + 2) % 4 == 2);
        assert((4 * i + 3) / 4 == i && (4 * i + 3) % 4 == 3);
    }
}

} // verus!
