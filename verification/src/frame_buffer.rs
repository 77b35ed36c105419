//! The pixel surface: a flat, row-major RGB byte buffer with a top-left
//! origin. Both rendering pipelines write single pixels into it; a write
//! whose byte offset would leave the buffer is silently dropped.

use vstd::prelude::*;
use vstd::pervasive::VecAdditionalExecFns;
use crate::math_3d::vec3::Color;

verus! {

/// A `width` by `height` surface of RGB bytes, three per pixel.
pub struct FrameBuffer {
    pub width: usize,
    pub height: usize,
    pub pixels: Vec<u8>,
}

/// The byte a cleared buffer holds at offset `i`: the color's channels
/// repeat with period three.
pub open spec fn clean_byte_spec(c: Color, i: int) -> u8 {
    if i % 3 == 0 {
        c.0
    } else if i % 3 == 1 {
        c.1
    } else {
        c.2
    }
}

/// The buffer's bytes after writing color `c` at pixel `(x, y)` of a
/// surface `width` pixels wide: three bytes change when the offset lies
/// inside the buffer, nothing otherwise.
pub open spec fn pixel_write_spec(pix: Seq<u8>, width: int, x: int, y: int, c: Color) -> Seq<u8> {
    let idx = (y * width + x) * 3;
    if idx + 2 < pix.len() {
        pix.update(idx, c.0).update(idx + 1, c.1).update(idx + 2, c.2)
    } else {
        pix
    }
}

impl FrameBuffer {
    /// The byte buffer holds exactly three bytes per pixel and the
    /// dimensions fit comfortably below the address-space limits.
    pub open spec fn wf(self) -> bool {
        &&& self.pixels.len() == self.width * self.height * 3
        &&& self.width <= 0xffff_ffff
        &&& self.height <= 0xffff_ffff
    }

    /// A black surface of the given dimensions.
    pub fn new(width: usize, height: usize) -> (r: FrameBuffer)
        requires
            width * height * 3 <= usize::MAX,
            width <= 0xffff_ffff,
            height <= 0xffff_ffff,
        ensures
            r.wf(),
            r.width == width,
            r.height == height,
            r.pixels@ == Seq::new((width * height * 3) as nat, |i: int| 0u8),
    {
        proof {
            assert(width * height <= width * height * 3) by (nonlinear_arith)
                requires
                    width >= 0,
                    height >= 0,
            ;
            assert(width * height * 3 == (width * height) * 3) by (nonlinear_arith);
        }
        let n: usize = width * height * 3;
        let mut pixels: Vec<u8> = Vec::new();
        let mut i: usize = 0;
        while i < n
            invariant
                i <= n,
                pixels.len() == i,
                forall|k: int| 0 <= k < i ==> pixels[k] == 0u8,
            decreases n - i,
        {
            pixels.push(0);
            i = i + 1;
        }
        proof {
            assert(pixels@ =~= Seq::new((width * height * 3) as nat, |k: int| 0u8));
        }
        FrameBuffer { width, height, pixels }
    }

    /// The raw bytes, row-major RGB, for hand-off to an encoder.
    pub fn as_slice(&self) -> (r: &[u8])
        ensures
            r@ == self.pixels@,
    {
        self.pixels.as_slice()
    }

    /// Fills the whole surface with one color.
    pub fn clean(&mut self, c: Color)
        requires
            old(self).wf(),
        ensures
            final(self).wf(),
            final(self).width == old(self).width,
            final(self).height == old(self).height,
            final(self).pixels.len() == old(self).pixels.len(),
            forall|k: int|
                0 <= k < final(self).pixels.len() ==> final(self).pixels[k] == clean_byte_spec(
                    c,
                    k,
                ),
    {
        let n = self.pixels.len();
        proof {
            let w = old(self).width as int;
            let h = old(self).height as int;
            assert(n % 3 == 0) by (nonlinear_arith)
                requires
                    n == w * h * 3,
            ;
        }
        let mut i: usize = 0;
        while i < n
            invariant
                old(self).wf(),
                self.width == old(self).width,
                self.height == old(self).height,
                self.pixels.len() == n == old(self).pixels.len(),
                i % 3 == 0,
                n % 3 == 0,
                i <= n,
                forall|k: int| 0 <= k < i ==> self.pixels[k] == clean_byte_spec(c, k),
            decreases n - i,
        {
            proof {
                assert(i + 2 < n) by (nonlinear_arith)
                    requires
                        i % 3 == 0,
                        n % 3 == 0,
                        i < n,
                        i >= 0,
                ;
            }
            self.pixels.set(i, c.0);
            self.pixels.set(i + 1, c.1);
            self.pixels.set(i + 2, c.2);
            proof {
                assert((i + 1) % 3 == 1 && (i + 2) % 3 == 2) by (nonlinear_arith)
                    requires
                        i % 3 == 0,
                        i >= 0,
                ;
            }
            i = i + 3;
        }
    }

    /// Writes color `c` at pixel `(x, y)`. A write whose byte offset lies
    /// outside the buffer is dropped.
    pub fn pixel(&mut self, x: u32, y: u32, c: Color)
        requires
            old(self).wf(),
        ensures
            final(self).wf(),
            final(self).width == old(self).width,
            final(self).height == old(self).height,
            final(self).pixels@ == pixel_write_spec(
                old(self).pixels@,
                old(self).width as int,
                x as int,
                y as int,
                c,
            ),
    {
        proof {
            assert((y as int) * (self.width as int) <= 0xffff_ffff * 0xffff_ffff)
                by (nonlinear_arith)
                requires
                    0 <= y as int <= 0xffff_ffff,
                    0 <= self.width as int <= 0xffff_ffff,
            ;
            assert((y as int) * (self.width as int) >= 0) by (nonlinear_arith)
                requires
                    y as int >= 0,
                    self.width as int >= 0,
            ;
        }
        let base: u128 = (y as u128) * (self.width as u128) + (x as u128);
        let idx3: u128 = base * 3;
        if idx3 + 2 < self.pixels.len() as u128 {
            let idx = idx3 as usize;
            self.pixels.set(idx, c.0);
            self.pixels.set(idx + 1, c.1);
            self.pixels.set(idx + 2, c.2);
        }
    }
}

} // verus!
