//! 8-bit RGB colors and their packing in `0x00RRGGBB` words.

use vstd::prelude::*;

verus! {

/// A color with one byte per channel.
#[derive(Clone, Copy, Debug)]
pub struct RGB {
    pub r: u8,
    pub g: u8,
    pub b: u8,
}

/// The color that the word `0x??RRGGBB` denotes: its three low bytes, the most
/// significant of them red. The high byte plays no part.
pub open spec fn rgb_of_word(value: u32) -> RGB {
    RGB {
        r: ((value / 0x1_0000) % 0x100) as u8,
        g: ((value / 0x100) % 0x100) as u8,
        b: (value % 0x100) as u8,
    }
}

impl RGB {
    /// The color black, all three channels zero.
    pub fn black() -> (c: RGB)
        ensures
            c == (RGB { r: 0, g: 0, b: 0 }),
            c == rgb_of_word(0),
    {
        RGB::from(0x00_00_00u32)
    }
}

impl From<u32> for RGB {
    fn from(value: u32) -> (c: RGB) {
        let r: u32 = (value >> 16u32) & 0xffu32;
        let g: u32 = (value >> 8u32) & 0xffu32;
        let b: u32 = value & 0xffu32;
        proof {
            assert(r == (value / 0x1_0000) % 0x100) by (bit_vector)
                requires r == (value >> 16u32) & 0xffu32;
            assert(g == (value / 0x100) % 0x100) by (bit_vector)
                requires g == (value >> 8u32) & 0xffu32;
            assert(b == value % 0x100) by (bit_vector)
                requires b == value & 0xffu32;
        }
        RGB { r: r as u8, g: g as u8, b: b as u8 }
    }
}

impl vstd::std_specs::convert::FromSpecImpl<u32> for RGB {
    open spec fn obeys_from_spec() -> bool {
        true
    }

    open spec fn from_spec(v: u32) -> RGB {
        rgb_of_word(v)
    }
}

/// Packing three channels as `0x00RRGGBB` and reading the word back as a color
/// gives the three channels again.
pub proof fn lemma_word_of_channels(r: u8, g: u8, b: u8)
    ensures
        rgb_of_word((r * 0x1_0000 + g * 0x100 + b) as u32) == (RGB { r, g, b }),
{
    let v: int = r * 0x1_0000 + g * 0x100 + b;
    assert(v / 0x1_0000 == r && (v / 0x100) % 0x100 == g && v % 0x100 == b) by (nonlinear_arith)
        requires
            v == r * 0x1_0000 + g * 0x100 + b,
            0 <= r < 0x100,
            0 <= g < 0x100,
            0 <= b < 0x100,
    ;
}

/// The high byte of the word does not change the color it denotes.
pub proof fn lemma_high_byte_ignored(value: u32)
    ensures
        rgb_of_word(value) == rgb_of_word((value % 0x100_0000) as u32),
{
    let low: u32 = (value % 0x100_0000) as u32;
    assert((value / 0x1_0000) % 0x100 == (low / 0x1_0000) % 0x100 && (value / 0x100) % 0x100 == (
    low / 0x100) % 0x100 && value % 0x100 == low % 0x100) by (bit_vector)
        requires
            low == value % 0x100_0000,
    ;
}

} // verus!
