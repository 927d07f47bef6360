//! Pattern source: builds color buffers from pixels, in the device's channel order, padded
//! with zero bytes to a whole number of transport words.
use vstd::prelude::*;

verus! {

/// Pixels in the strip the driver is built for.
pub const STRIP_LEN: usize = 15;

/// One LED's color. The device takes the channels green, red, blue, in that order.
#[derive(Debug, Clone, Copy, PartialEq, Eq, Structural)]
pub struct Pixel {
    pub green: u8,
    pub red: u8,
    pub blue: u8,
}

/// The channel bytes of a pixel, in wire order.
pub open spec fn pixel_bytes(p: Pixel) -> Seq<u8> {
    seq![p.green, p.red, p.blue]
}

/// The zero bytes that bring `n` bytes up to a multiple of four.
pub open spec fn padding(n: nat) -> nat {
    ((4 - n % 4) % 4) as nat
}

/// The color buffer for a row of pixels: their channel bytes in order, then zero padding.
pub open spec fn color_buffer(pixels: Seq<Pixel>) -> Seq<u8> {
    Seq::new(pixels.len() * 3, |k: int| pixel_bytes(pixels[k / 3])[k % 3])
        + Seq::new(padding(pixels.len() * 3), |k: int| 0u8)
}

impl Pixel {
    /// A pixel from its green, red and blue channels.
    pub fn grb(green: u8, red: u8, blue: u8) -> (p: Pixel)
        ensures
            pixel_bytes(p) == seq![green, red, blue],
    {
        Pixel { green, red, blue }
    }

    /// The channel bytes, in wire order.
    pub fn bytes(&self) -> (r: [u8; 3])
        ensures
            r@ == pixel_bytes(*self),
    {
        let r = [self.green, self.red, self.blue];
        assert(r@ =~= pixel_bytes(*self));
        r
    }
}

/// The color buffer for a row of pixels, padded with zero bytes to a multiple of four.
pub fn build_buffer(pixels: &[Pixel]) -> (r: Vec<u8>)
    requires
        pixels@.len() * 3 + 3 <= usize::MAX,
    ensures
        r@ == color_buffer(pixels@),
        r@.len() % 4 == 0,
{
    let mut out: Vec<u8> = Vec::with_capacity(pixels.len() * 3 + 3);
    let mut i: usize = 0;
    while i < pixels.len()
        invariant
            i <= pixels@.len(),
            pixels@.len() * 3 + 3 <= usize::MAX,
            out@.len() == i * 3,
            forall|k: int| 0 <= k < out@.len() ==> #[trigger] out@[k] == pixel_bytes(pixels@[k / 3])[k % 3],
        decreases pixels@.len() - i,
    {
        let p = pixels[i];
        out.push(p.green);
        out.push(p.red);
        out.push(p.blue);
        proof {
            assert forall|k: int| 0 <= k < out@.len() implies #[trigger] out@[k] == pixel_bytes(
                pixels@[k / 3],
            )[k % 3] by {
                if k >= i * 3 {
                    assert(k / 3 == i && k % 3 == k - i * 3);
                }
            }
        }
        i += 1;
    }
    let n = out.len();
    let pad: usize = (4 - n % 4) % 4;
    let mut j: usize = 0;
    while j < pad
        invariant
            n == pixels@.len() * 3,
            pixels@.len() * 3 + 3 <= usize::MAX,
            pad == padding(n as nat),
            j <= pad,
            out@.len() == n + j,
            forall|k: int| 0 <= k < n ==> #[trigger] out@[k] == pixel_bytes(pixels@[k / 3])[k % 3],
            forall|k: int| n <= k < out@.len() ==> #[trigger] out@[k] == 0u8,
        decreases pad - j,
    {
        out.push(0u8);
        j += 1;
    }
    assert(out@ =~= color_buffer(pixels@));
    out
}

/// A buffer of `count` pixels of one color, padded to a multiple of four bytes.
pub fn solid_fill(pixel: Pixel, count: usize) -> (r: Vec<u8>)
    requires
        count * 3 + 3 <= usize::MAX,
    ensures
        r@ == color_buffer(Seq::new(count as nat, |i: int| pixel)),
        r@.len() % 4 == 0,
{
    let mut pixels: Vec<Pixel> = Vec::with_capacity(count);
    let mut i: usize = 0;
    while i < count
        invariant
            i <= count,
            pixels@ =~= Seq::new(i as nat, |k: int| pixel),
        decreases count - i,
    {
        pixels.push(pixel);
        i += 1;
    }
    build_buffer(pixels.as_slice())
}

/// A stateless pattern that yields the same single-color strip for every refresh.
#[derive(Debug, Clone, Copy, PartialEq, Eq, Structural)]
pub struct SolidPattern {
    pub pixel: Pixel,
    pub count: usize,
}

impl SolidPattern {
    /// A whole strip of one color.
    pub fn strip(pixel: Pixel) -> (p: SolidPattern)
        ensures
            p.pixel == pixel,
            p.count == STRIP_LEN,
    {
        SolidPattern { pixel, count: STRIP_LEN }
    }

    /// The color buffer to send next.
    pub fn next_buffer(&self) -> (r: Vec<u8>)
        requires
            self.count * 3 + 3 <= usize::MAX,
        ensures
            r@ == color_buffer(Seq::new(self.count as nat, |i: int| self.pixel)),
            r@.len() % 4 == 0,
    {
        solid_fill(self.pixel, self.count)
    }
}

} // verus!
