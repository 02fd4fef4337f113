//! The linear image buffer that a decoded RAW develops into.
//!
//! Each pixel holds four samples (RGBA). The decoder produces
//! single-precision floats; the library carries each sample as its raw
//! 32-bit pattern and never interprets it, it only checks shapes and
//! moves pixels. The host converts between this form and its own float
//! buffers bit for bit.

use vstd::prelude::*;

verus! {

/// A `width × height` RGBA image in row-major order, four samples per
/// pixel, each sample an opaque 32-bit pattern.
pub struct LinearBuf {
    pub width: u32,
    pub height: u32,
    pub data: Vec<u32>,
}

impl LinearBuf {
    /// Shape invariant: both dimensions positive and exactly four
    /// samples per pixel.
    pub open spec fn wf(self) -> bool {
        &&& 1 <= self.width
        &&& 1 <= self.height
        &&& self.data@.len() == self.width * self.height * 4
    }

    /// The sample of channel `c` of the pixel at `(x, y)`.
    pub open spec fn sample(self, x: int, y: int, c: int) -> u32 {
        self.data@[(y * self.width + x) * 4 + c]
    }

    /// Decides the shape invariant at run time; a buffer handed in by
    /// the host is only used after this check.
    pub fn check_wf(&self) -> (b: bool)
        ensures
            b == self.wf(),
    {
        if self.width == 0 || self.height == 0 {
            return false;
        }
        let len = self.data.len();
        let wh = match (self.width as usize).checked_mul(self.height as usize) {
            Some(v) => v,
            None => {
                proof {
                    assert(self.width * self.height * 4 >= self.width * self.height) by (nonlinear_arith)
                        requires
                            self.width >= 1,
                            self.height >= 1,
                    ;
                }
                return false;
            },
        };
        let n = match wh.checked_mul(4) {
            Some(v) => v,
            None => {
                proof {
                    assert(self.width * self.height * 4 == wh * 4) by (nonlinear_arith)
                        requires
                            wh == self.width * self.height,
                    ;
                }
                return false;
            },
        };
        proof {
            assert(self.width * self.height * 4 == wh * 4) by (nonlinear_arith)
                requires
                    wh == self.width * self.height,
            ;
        }
        len == n
    }
}

impl Clone for LinearBuf {
    fn clone(&self) -> (r: Self)
        ensures
            r.width == self.width,
            r.height == self.height,
            r.data@ == self.data@,
    {
        let mut data: Vec<u32> = Vec::new();
        let n = self.data.len();
        for i in 0..n
            invariant
                n == self.data@.len(),
                data@ =~= self.data@.take(i as int),
        {
            data.push(self.data[i]);
        }
        proof {
            assert(self.data@.take(n as int) =~= self.data@);
        }
        LinearBuf { width: self.width, height: self.height, data }
    }
}

} // verus!
