//! Color values as the drawing API accepts them, and the pixel values the
//! buffers store.

use vstd::prelude::*;

verus! {

/// An RGBA color as accepted by the drawing API. The alpha channel is
/// carried but not honored by the renderer: colors are written opaquely.
#[derive(Debug, Clone, Copy, PartialEq, Eq, Structural)]
pub struct Color {
    pub r: u8,
    pub g: u8,
    pub b: u8,
    pub a: u8,
}

/// One cell of a pixel buffer: an opaque RGB triple.
#[derive(Debug, Clone, Copy, PartialEq, Eq, Structural)]
pub struct Pixel {
    pub r: u8,
    pub g: u8,
    pub b: u8,
}

impl Color {
    /// The color with the given channels.
    pub fn rgba(r: u8, g: u8, b: u8, a: u8) -> (c: Color)
        ensures
            c == (Color { r, g, b, a }),
    {
        Color { r, g, b, a }
    }

    /// The fully opaque color with the given channels.
    pub fn rgb(r: u8, g: u8, b: u8) -> (c: Color)
        ensures
            c == (Color { r, g, b, a: 255u8 }),
    {
        Color { r, g, b, a: 255 }
    }

    /// The fully opaque color written as `0xRRGGBB`: the red, green and
    /// blue channels are the value's third, second and lowest byte.
    pub fn hex(hex: u32) -> (c: Color)
        ensures
            c.r == hex / 0x10000 % 0x100,
            c.g == hex / 0x100 % 0x100,
            c.b == hex % 0x100,
            c.a == 255,
    {
        proof {
            assert((hex >> 16) & 0xFF == hex / 0x10000 % 0x100) by (bit_vector);
            assert((hex >> 8) & 0xFF == hex / 0x100 % 0x100) by (bit_vector);
            assert(hex & 0xFF == hex % 0x100) by (bit_vector);
        }
        Color {
            r: ((hex >> 16) & 0xFF) as u8,
            g: ((hex >> 8) & 0xFF) as u8,
            b: (hex & 0xFF) as u8,
            a: 255,
        }
    }

    /// The color written as `0xRRGGBBAA`: the four channels are the
    /// value's four bytes, highest first.
    pub fn hex_a(hex: u32) -> (c: Color)
        ensures
            c.r == hex / 0x1000000,
            c.g == hex / 0x10000 % 0x100,
            c.b == hex / 0x100 % 0x100,
            c.a == hex % 0x100,
    {
        proof {
            assert((hex >> 24) & 0xFF == hex / 0x1000000) by (bit_vector);
            assert((hex >> 16) & 0xFF == hex / 0x10000 % 0x100) by (bit_vector);
            assert((hex >> 8) & 0xFF == hex / 0x100 % 0x100) by (bit_vector);
            assert(hex & 0xFF == hex % 0x100) by (bit_vector);
        }
        Color {
            r: ((hex >> 24) & 0xFF) as u8,
            g: ((hex >> 16) & 0xFF) as u8,
            b: ((hex >> 8) & 0xFF) as u8,
            a: (hex & 0xFF) as u8,
        }
    }

    /// The pixel that drawing this color writes: the alpha channel is
    /// dropped, the color lands opaquely.
    pub fn pixel(self) -> (p: Pixel)
        ensures
            p == self.spec_pixel(),
    {
        Pixel { r: self.r, g: self.g, b: self.b }
    }

    /// The pixel value a drawing call with this color writes.
    pub open spec fn spec_pixel(self) -> Pixel {
        Pixel { r: self.r, g: self.g, b: self.b }
    }
}

impl Default for Pixel {
    /// A fresh pixel is the all-black background.
    fn default() -> (p: Pixel)
        ensures
            p == Pixel::spec_black(),
    {
        Pixel { r: 0, g: 0, b: 0 }
    }
}

impl Pixel {
    /// The background every fresh drawing buffer starts from: opaque black.
    pub fn black() -> (p: Pixel)
        ensures
            p == Pixel::spec_black(),
    {
        Pixel { r: 0, g: 0, b: 0 }
    }

    /// The pixel value of the all-black background.
    pub open spec fn spec_black() -> Pixel {
        Pixel { r: 0u8, g: 0u8, b: 0u8 }
    }

    /// The sentinel a display buffer is seeded with: an RGB triple no
    /// drawing call produces on purpose, so the first repaint after a seed
    /// is never skipped.
    pub fn dirty() -> (p: Pixel)
        ensures
            p == Pixel::spec_dirty(),
    {
        Pixel { r: 1, g: 2, b: 3 }
    }

    /// The pixel value of the dirty sentinel.
    pub open spec fn spec_dirty() -> Pixel {
        Pixel { r: 1u8, g: 2u8, b: 3u8 }
    }
}

} // verus!
