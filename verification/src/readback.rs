//! Reading a rendered frame back from a row-padded copy buffer: the layout of
//! that buffer, and the tightly packed RGBA image recovered from it.

use vstd::prelude::*;
use vstd::arithmetic::div_mod::{lemma_fundamental_div_mod, lemma_fundamental_div_mod_converse};

verus! {

/// An RGBA8 image of the `image` crate, ready to be encoded and saved.
#[verifier::external_body]
pub struct RgbaFrame {
    pub image: image::RgbaImage,
}

/// The raw samples that an RGBA8 image holds, row after row, four per pixel.
pub uninterp spec fn rgba_image_samples(frame: RgbaFrame) -> Seq<u8>;

/// The width and height that an RGBA8 image was made with.
pub uninterp spec fn rgba_image_dimensions(frame: RgbaFrame) -> (u32, u32);

/// `image::ImageBuffer::from_raw` for RGBA8 images. Its source builds the image
/// exactly when `4 * width * height`, computed in `usize` (first `4 * width`,
/// then times `height`, both checked), fits and is at most the number of
/// samples; the image then keeps the sample vector as it is and the given size.
#[verifier::external_body]
fn rgba_image_from_raw(width: u32, height: u32, samples: Vec<u8>) -> (img: Option<RgbaFrame>)
    ensures
        img is Some <==> (4 * width <= usize::MAX && 4 * width * height <= samples@.len()),
        img matches Some(i) ==> rgba_image_samples(i) == samples@
            && rgba_image_dimensions(i) == (width, height),
{
    image::RgbaImage::from_raw(width, height, samples).map(|image| RgbaFrame { image })
}

/// Bytes per pixel in the copy buffer and in the recovered image.
pub const BYTES_PER_PIXEL: u32 = 4;

/// `value / divisor`, rounded up.
pub open spec fn ceil_div(value: int, divisor: int) -> int {
    (value + divisor - 1) / divisor
}

/// `value` rounded up to the next multiple of `align`.
pub open spec fn round_up(value: int, align: int) -> int {
    ceil_div(value, align) * align
}

/// `value.div_ceil(divisor)` for `u32`, which cannot overflow.
pub fn div_ceil_u32(value: u32, divisor: u32) -> (q: u32)
    requires
        divisor > 0,
    ensures
        q == ceil_div(value as int, divisor as int),
{
    let q: u32 = value / divisor;
    let r: u32 = value % divisor;
    proof {
        lemma_fundamental_div_mod(value as int, divisor as int);
        if r != 0 {
            assert(q < u32::MAX) by (nonlinear_arith)
                requires
                    value == divisor * q + r,
                    0 < r < divisor,
                    value <= u32::MAX,
            ;
        }
        if r == 0 {
            assert(value + divisor - 1 == q * divisor + (divisor - 1)) by (nonlinear_arith)
                requires
                    value == divisor * q + r,
                    r == 0,
            ;
            lemma_fundamental_div_mod_converse(
                value + divisor - 1,
                divisor as int,
                q as int,
                divisor - 1,
            );
        } else {
            assert(value + divisor - 1 == (q + 1) * divisor + (r - 1)) by (nonlinear_arith)
                requires
                    value == divisor * q + r,
            ;
            lemma_fundamental_div_mod_converse(value + divisor - 1, divisor as int, q + 1, r - 1);
        }
    }
    if r == 0 {
        q
    } else {
        q + 1
    }
}

/// Where the rows of a `width` by `height` RGBA8 image lie in a copy buffer
/// whose rows must start at multiples of `align` bytes.
#[derive(Clone, Copy, Debug)]
pub struct ReadbackLayout {
    /// The bytes of pixel data in one row: `4 * width`.
    pub unpadded_bytes_per_row: u32,
    /// The stride of the rows in the buffer: `4 * width` rounded up to `align`.
    pub padded_bytes_per_row: u32,
    /// The size of the whole buffer: the stride times `height`.
    pub buffer_size: u64,
}

impl ReadbackLayout {
    /// The layout of the readback buffer of a `width` by `height` image.
    pub fn new(width: u32, height: u32, align: u32) -> (layout: ReadbackLayout)
        requires
            align > 0,
            4 * width <= u32::MAX,
            round_up(4 * width, align as int) <= u32::MAX,
            round_up(4 * width, align as int) * height <= u32::MAX,
        ensures
            layout.unpadded_bytes_per_row == 4 * width,
            layout.padded_bytes_per_row == round_up(4 * width, align as int),
            layout.buffer_size == layout.padded_bytes_per_row * height,
    {
        let unpadded: u32 = width * BYTES_PER_PIXEL;
        let blocks: u32 = div_ceil_u32(unpadded, align);
        let padded: u32 = blocks * align;
        let size: u32 = padded * height;
        ReadbackLayout {
            unpadded_bytes_per_row: unpadded,
            padded_bytes_per_row: padded,
            buffer_size: size as u64,
        }
    }

    /// `new` where its arithmetic stays within `u32` (and `align` is not zero);
    /// `None` exactly where that computation would overflow or divide by zero.
    pub fn checked_new(width: u32, height: u32, align: u32) -> (layout: Option<ReadbackLayout>)
        ensures
            layout is Some <==> (align > 0 && 4 * width <= u32::MAX && round_up(
                4 * width,
                align as int,
            ) <= u32::MAX && round_up(4 * width, align as int) * height <= u32::MAX),
            layout matches Some(l) ==> l.unpadded_bytes_per_row == 4 * width
                && l.padded_bytes_per_row == round_up(4 * width, align as int) && l.buffer_size
                == l.padded_bytes_per_row * height,
    {
        if align == 0 || width > u32::MAX / BYTES_PER_PIXEL {
            return None;
        }
        let unpadded: u32 = width * BYTES_PER_PIXEL;
        let blocks: u32 = div_ceil_u32(unpadded, align);
        assert((blocks as u64) * (align as u64) <= u64::MAX) by (nonlinear_arith)
            requires
                blocks <= u32::MAX,
                align <= u32::MAX,
        ;
        let padded: u64 = (blocks as u64) * (align as u64);
        if padded > u32::MAX as u64 {
            return None;
        }
        assert(padded * (height as u64) <= u64::MAX) by (nonlinear_arith)
            requires
                padded <= u32::MAX,
                height <= u32::MAX,
        ;
        let size: u64 = padded * (height as u64);
        if size > u32::MAX as u64 {
            return None;
        }
        Some(ReadbackLayout::new(width, height, align))
    }
}

/// How many whole rows of `padded_row` bytes a buffer of `data_len` bytes holds.
pub open spec fn readback_rows(data_len: nat, padded_row: nat) -> nat {
    data_len / padded_row
}

/// Byte `k` of the packed image recovered from `data`: rows of `row_bytes`
/// bytes taken from the starts of the `padded_row`-byte rows of `data`; the
/// color bytes of each pixel go through the 256-entry table `encode`, the
/// fourth (alpha) byte is kept as it is.
pub open spec fn readback_byte(
    data: Seq<u8>,
    padded_row: nat,
    row_bytes: nat,
    encode: Seq<u8>,
    k: int,
) -> u8 {
    let col = k % (row_bytes as int);
    let byte = data[(k / (row_bytes as int)) * padded_row + col];
    if col % 4 == 3 {
        byte
    } else {
        encode[byte as int]
    }
}

/// The packed RGBA bytes of an image `width` pixels wide recovered from a
/// row-padded copy buffer: one row per whole padded row of `data`.
pub open spec fn encoded_readback(
    data: Seq<u8>,
    padded_row: nat,
    width: nat,
    encode: Seq<u8>,
) -> Seq<u8> {
    Seq::new(
        readback_rows(data.len(), padded_row) * (4 * width),
        |k: int| readback_byte(data, padded_row, 4 * width, encode, k),
    )
}

/// Strip the row padding from a copy of an image `width` pixels wide whose rows
/// lie `padded_bytes_per_row` bytes apart in `data`, and pass each color byte
/// through the table `encode` (the alpha byte passes unchanged). Every whole
/// padded row of `data` gives one row of the result.
pub fn encode_readback(data: &[u8], padded_bytes_per_row: u32, width: u32, encode: &[u8]) -> (pixels:
    Vec<u8>)
    requires
        padded_bytes_per_row > 0,
        4 * width <= padded_bytes_per_row,
        encode@.len() == 256,
    ensures
        pixels@ == encoded_readback(data@, padded_bytes_per_row as nat, width as nat, encode@),
        pixels@.len() == (data@.len() / (padded_bytes_per_row as nat)) * (4 * width),
{
    let padded: usize = padded_bytes_per_row as usize;
    let row_bytes: usize = 4 * (width as usize);
    let len: usize = data.len();
    let rows: usize = len / padded;
    let ghost row_bytes_nat: nat = row_bytes as nat;
    let mut pixels: Vec<u8> = Vec::new();
    let mut row: usize = 0;
    while row < rows
        invariant
            len == data@.len(),
            rows == readback_rows(data@.len(), padded as nat),
            padded == padded_bytes_per_row,
            row_bytes == 4 * width,
            row_bytes <= padded,
            padded > 0,
            encode@.len() == 256,
            row <= rows,
            pixels@.len() == row * row_bytes,
            forall|k: int|
                0 <= k < pixels@.len() ==> #[trigger] pixels@[k] == readback_byte(
                    data@,
                    padded as nat,
                    row_bytes as nat,
                    encode@,
                    k,
                ),
        decreases rows - row,
    {
        assert(row * padded + padded <= len) by (nonlinear_arith)
            requires
                row < rows,
                rows == len / padded,
                padded > 0,
        ;
        let start: usize = row * padded;
        let mut col: usize = 0;
        while col < row_bytes
            invariant
                len == data@.len(),
                padded == padded_bytes_per_row,
                row_bytes == 4 * width,
                row_bytes <= padded,
                encode@.len() == 256,
                row < rows,
                start == row * padded,
                start + padded <= len,
                col <= row_bytes,
                pixels@.len() == row * row_bytes + col,
                forall|k: int|
                    0 <= k < pixels@.len() ==> #[trigger] pixels@[k] == readback_byte(
                        data@,
                        padded as nat,
                        row_bytes as nat,
                        encode@,
                        k,
                    ),
            decreases row_bytes - col,
        {
            let byte: u8 = data[start + col];
            let value: u8 = if col % 4 == 3 {
                byte
            } else {
                encode[byte as usize]
            };
            proof {
                assert(row * row_bytes + col == (row * row_bytes) + col);
                lemma_fundamental_div_mod_converse(
                    (row * row_bytes + col) as int,
                    row_bytes as int,
                    row as int,
                    col as int,
                );
            }
            pixels.push(value);
            col = col + 1;
        }
        assert((row + 1) * row_bytes == row * row_bytes + row_bytes) by (nonlinear_arith);
        row = row + 1;
    }
    assert(pixels@ =~= encoded_readback(data@, padded_bytes_per_row as nat, width as nat, encode@));
    proof {
        lemma_encoded_readback_len(data@, padded_bytes_per_row as nat, width as nat, encode@);
    }
    pixels
}

/// Recover an RGBA8 image `width` by `height` from a row-padded copy buffer,
/// encoding its color bytes through `encode`. The image exists exactly when
/// the buffer holds at least `height` whole padded rows (or the image has no
/// columns); its samples are then the packed bytes of all the buffer's rows.
pub fn readback_image(
    width: u32,
    height: u32,
    data: &[u8],
    padded_bytes_per_row: u32,
    encode: &[u8],
) -> (frame: Option<RgbaFrame>)
    requires
        padded_bytes_per_row > 0,
        4 * width <= padded_bytes_per_row,
        encode@.len() == 256,
    ensures
        frame is Some <==> (width == 0 || height <= readback_rows(
            data@.len(),
            padded_bytes_per_row as nat,
        )),
        frame is Some <==> (width == 0 || height as nat <= data@.len() / (
        padded_bytes_per_row as nat)),
        frame matches Some(f) ==> rgba_image_samples(f) == encoded_readback(
            data@,
            padded_bytes_per_row as nat,
            width as nat,
            encode@,
        ) && rgba_image_dimensions(f) == (width, height),
{
    let pixels = encode_readback(data, padded_bytes_per_row, width, encode);
    let ghost rows = readback_rows(data@.len(), padded_bytes_per_row as nat);
    proof {
        assert(4 * width * height <= rows * (4 * width) <==> (width == 0 || height <= rows))
            by (nonlinear_arith)
            requires
                width >= 0,
                height >= 0,
                rows >= 0,
        ;
    }
    rgba_image_from_raw(width, height, pixels)
}

/// Every whole padded row of the buffer gives one row of `4 * width` bytes:
/// the recovered bytes number `(data length / padded row) * 4 * width`,
/// however many rows that is.
pub proof fn lemma_encoded_readback_len(data: Seq<u8>, padded_row: nat, width: nat, encode: Seq<u8>)
    requires
        padded_row > 0,
    ensures
        encoded_readback(data, padded_row, width, encode).len() == (data.len() / padded_row) * (4
            * width),
{
}

/// Each pixel of the recovered image comes from its row and column in the
/// padded buffer: channel `c` of pixel `x` of row `r` is the encoded byte at
/// `r * padded_row + 4 * x + c` of `data`, or that byte itself for alpha.
pub proof fn lemma_readback_pixel(
    data: Seq<u8>,
    padded_row: nat,
    width: nat,
    encode: Seq<u8>,
    r: nat,
    x: nat,
    c: nat,
)
    requires
        padded_row > 0,
        4 * width <= padded_row,
        r < readback_rows(data.len(), padded_row),
        x < width,
        c < 4,
    ensures
        ((r * width + x) * 4 + c) < encoded_readback(data, padded_row, width, encode).len(),
        r * padded_row + 4 * x + c < data.len(),
        encoded_readback(data, padded_row, width, encode)[((r * width + x) * 4 + c) as int] == (if c
            == 3 {
            data[(r * padded_row + 4 * x + c) as int]
        } else {
            encode[data[(r * padded_row + 4 * x + c) as int] as int]
        }),
{
    let row_bytes: int = (4 * width) as int;
    let k: int = ((r * width + x) * 4 + c) as int;
    let col: int = (4 * x + c) as int;
    assert(k == r * row_bytes + col && 0 <= col < row_bytes) by (nonlinear_arith)
        requires
            row_bytes == 4 * width,
            k == (r * width + x) * 4 + c,
            col == 4 * x + c,
            x < width,
            c < 4,
    ;
    let rows: int = readback_rows(data.len(), padded_row) as int;
    assert((r + 1) * row_bytes <= rows * row_bytes) by (nonlinear_arith)
        requires
            r + 1 <= rows,
            row_bytes >= 0,
    ;
    assert((r + 1) * row_bytes == r * row_bytes + row_bytes) by (nonlinear_arith);
    assert(r * padded_row + padded_row <= data.len()) by (nonlinear_arith)
        requires
            r + 1 <= rows,
            rows == (data.len() as int) / (padded_row as int),
            padded_row > 0,
    ;
    lemma_fundamental_div_mod_converse(k, row_bytes, r as int, col);
    assert(col % 4 == c) by {
        lemma_fundamental_div_mod_converse(col, 4, x as int, c as int);
    }
}

/// Rounding up to a positive alignment gives the least multiple of it that is
/// at least the value: a multiple, not below the value, and less than one
/// alignment above it.
pub proof fn lemma_round_up_bounds(value: int, align: int)
    requires
        value >= 0,
        align > 0,
    ensures
        round_up(value, align) % align == 0,
        value <= round_up(value, align) < value + align,
        round_up(value, align) >= 0,
{
    let q = (value + align - 1) / align;
    let r = (value + align - 1) % align;
    assert(q * align + r == value + align - 1 && 0 <= r < align) by (nonlinear_arith)
        requires
            align > 0,
            q == (value + align - 1) / align,
            r == (value + align - 1) % align,
    ;
    assert((q * align) % align == 0 && q * align >= 0) by (nonlinear_arith)
        requires
            align > 0,
            q >= 0,
    ;
}

} // verus!
