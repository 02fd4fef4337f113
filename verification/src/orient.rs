//! EXIF orientation normalization: the eight identity / flip / rotate
//! combinations, applied to a linear buffer as a pure pixel
//! permutation.

use vstd::prelude::*;
use vstd::arithmetic::div_mod::{lemma_fundamental_div_mod, lemma_fundamental_div_mod_converse};

use crate::buffer::LinearBuf;

verus! {

/// The eight orientations an EXIF header can ask for.
#[derive(Clone, Copy, PartialEq, Eq, Structural, Debug)]
pub enum Orientation {
    Normal,
    HorizontalFlip,
    Rotate180,
    VerticalFlip,
    Transpose,
    Rotate90,
    Transverse,
    Rotate270,
}

impl Orientation {
    /// The EXIF orientation tag takes values 1 through 8; any other
    /// value reads as the identity.
    pub open spec fn spec_from_exif(v: u16) -> Orientation {
        if v == 2 {
            Orientation::HorizontalFlip
        } else if v == 3 {
            Orientation::Rotate180
        } else if v == 4 {
            Orientation::VerticalFlip
        } else if v == 5 {
            Orientation::Transpose
        } else if v == 6 {
            Orientation::Rotate90
        } else if v == 7 {
            Orientation::Transverse
        } else if v == 8 {
            Orientation::Rotate270
        } else {
            Orientation::Normal
        }
    }

    pub fn from_exif(v: u16) -> (r: Orientation)
        ensures
            r == Orientation::spec_from_exif(v),
    {
        match v {
            2 => Orientation::HorizontalFlip,
            3 => Orientation::Rotate180,
            4 => Orientation::VerticalFlip,
            5 => Orientation::Transpose,
            6 => Orientation::Rotate90,
            7 => Orientation::Transverse,
            8 => Orientation::Rotate270,
            _ => Orientation::Normal,
        }
    }

    /// Whether this orientation turns a `w × h` image into an `h × w`
    /// one.
    pub open spec fn swaps_dims(self) -> bool {
        match self {
            Orientation::Transpose => true,
            Orientation::Rotate90 => true,
            Orientation::Transverse => true,
            Orientation::Rotate270 => true,
            _ => false,
        }
    }

    pub fn swaps(self) -> (r: bool)
        ensures
            r == self.swaps_dims(),
    {
        match self {
            Orientation::Transpose => true,
            Orientation::Rotate90 => true,
            Orientation::Transverse => true,
            Orientation::Rotate270 => true,
            _ => false,
        }
    }

    pub open spec fn out_width(self, w: int, h: int) -> int {
        if self.swaps_dims() {
            h
        } else {
            w
        }
    }

    pub open spec fn out_height(self, w: int, h: int) -> int {
        if self.swaps_dims() {
            w
        } else {
            h
        }
    }

    /// The source column that lands at `(x, y)` of the oriented copy of
    /// a `w × h` image.
    pub open spec fn src_x(self, w: int, h: int, x: int, y: int) -> int {
        match self {
            Orientation::Normal => x,
            Orientation::HorizontalFlip => w - 1 - x,
            Orientation::Rotate180 => w - 1 - x,
            Orientation::VerticalFlip => x,
            Orientation::Transpose => w - 1 - y,
            Orientation::Rotate90 => y,
            Orientation::Transverse => y,
            Orientation::Rotate270 => w - 1 - y,
        }
    }

    /// The source row that lands at `(x, y)` of the oriented copy.
    pub open spec fn src_y(self, w: int, h: int, x: int, y: int) -> int {
        match self {
            Orientation::Normal => y,
            Orientation::HorizontalFlip => y,
            Orientation::Rotate180 => h - 1 - y,
            Orientation::VerticalFlip => h - 1 - y,
            Orientation::Transpose => h - 1 - x,
            Orientation::Rotate90 => h - 1 - x,
            Orientation::Transverse => x,
            Orientation::Rotate270 => x,
        }
    }

    /// The orientation that undoes this one: the two quarter turns
    /// undo each other, everything else is its own inverse.
    pub open spec fn spec_inverse(self) -> Orientation {
        match self {
            Orientation::Rotate90 => Orientation::Rotate270,
            Orientation::Rotate270 => Orientation::Rotate90,
            _ => self,
        }
    }

    pub fn inverse(self) -> (r: Orientation)
        ensures
            r == self.spec_inverse(),
    {
        match self {
            Orientation::Rotate90 => Orientation::Rotate270,
            Orientation::Rotate270 => Orientation::Rotate90,
            _ => self,
        }
    }
}

/// Source coordinates of in-range output coordinates are in range.
proof fn lemma_src_in_range(o: Orientation, w: int, h: int, x: int, y: int)
    requires
        1 <= w,
        1 <= h,
        0 <= x < o.out_width(w, h),
        0 <= y < o.out_height(w, h),
    ensures
        0 <= o.src_x(w, h, x, y) < w,
        0 <= o.src_y(w, h, x, y) < h,
{
}

/// The flat index in the source data of the first sample of the pixel
/// that lands at flat pixel index `px` of an oriented image whose
/// output width is `ow`.
pub open spec fn src_base(o: Orientation, w: int, h: int, ow: int, px: int) -> int {
    (o.src_y(w, h, px % ow, px / ow) * w + o.src_x(w, h, px % ow, px / ow)) * 4
}

/// What it means for `dst` to be the copy of `src` oriented by `o`:
/// the dimensions follow the turn, and every sample of `dst` is the
/// mapped sample of `src`.
pub open spec fn oriented_by(o: Orientation, src: LinearBuf, dst: LinearBuf) -> bool {
    &&& dst.width == o.out_width(src.width as int, src.height as int)
    &&& dst.height == o.out_height(src.width as int, src.height as int)
    &&& forall|x: int, y: int, c: int|
        0 <= x < dst.width && 0 <= y < dst.height && 0 <= c < 4 ==> #[trigger] dst.sample(x, y, c)
            == src.sample(
            o.src_x(src.width as int, src.height as int, x, y),
            o.src_y(src.width as int, src.height as int, x, y),
            c,
        )
}

/// Produces the oriented copy of a buffer: one of the eight identity /
/// flip / rotate pixel permutations.
pub fn apply_orientation(buf: &LinearBuf, o: Orientation) -> (r: LinearBuf)
    requires
        buf.wf(),
    ensures
        r.wf(),
        oriented_by(o, *buf, r),
{
    let w = buf.width;
    let h = buf.height;
    let len = buf.data.len();
    let (ow, oh) = if o.swaps() { (h, w) } else { (w, h) };
    proof {
        assert(ow * oh == w * h && w * h <= w * h * 4) by (nonlinear_arith)
            requires
                1 <= w,
                1 <= h,
                (ow == w && oh == h) || (ow == h && oh == w),
        ;
        assert(len == w * h * 4);
    }
    let total: usize = (ow as usize) * (oh as usize);
    let mut data: Vec<u32> = Vec::new();
    for i in 0..total
        invariant
            buf.wf(),
            w == buf.width,
            h == buf.height,
            ow == o.out_width(w as int, h as int),
            oh == o.out_height(w as int, h as int),
            1 <= ow,
            1 <= oh,
            total == ow * oh,
            total == w * h,
            buf.data@.len() == w * h * 4,
            len == buf.data@.len(),
            data@.len() == 4 * i,
            forall|px: int, c: int| 0 <= px < i && 0 <= c < 4 ==> #[trigger] data@[4 * px + c]
                == buf.data@[src_base(o, w as int, h as int, ow as int, px) + c],
    {
        let x: u32 = (i % (ow as usize)) as u32;
        let y: u32 = (i / (ow as usize)) as u32;
        proof {
            lemma_fundamental_div_mod(i as int, ow as int);
            assert(i / (ow as usize) < oh && i % (ow as usize) < ow) by (nonlinear_arith)
                requires
                    1 <= ow,
                    1 <= oh,
                    i < ow * oh,
                    i == ow * (i / (ow as usize)) + i % (ow as usize),
                    0 <= i % (ow as usize) < ow,
            ;
            lemma_src_in_range(o, w as int, h as int, x as int, y as int);
        }
        let (sx, sy): (u32, u32) = match o {
            Orientation::Normal => (x, y),
            Orientation::HorizontalFlip => (w - 1 - x, y),
            Orientation::Rotate180 => (w - 1 - x, h - 1 - y),
            Orientation::VerticalFlip => (x, h - 1 - y),
            Orientation::Transpose => (w - 1 - y, h - 1 - x),
            Orientation::Rotate90 => (y, h - 1 - x),
            Orientation::Transverse => (y, x),
            Orientation::Rotate270 => (w - 1 - y, x),
        };
        proof {
            assert(sx == o.src_x(w as int, h as int, x as int, y as int));
            assert(sy == o.src_y(w as int, h as int, x as int, y as int));
            assert((sy * w + sx) * 4 + 3 < w * h * 4 && (sy as int) * (w as int) + sx >= 0) by (nonlinear_arith)
                requires
                    0 <= sx < w,
                    0 <= sy < h,
            ;
            assert(src_base(o, w as int, h as int, ow as int, i as int) == (sy * w + sx) * 4);
        }
        let sbase: usize = ((sy as usize) * (w as usize) + (sx as usize)) * 4;
        data.push(buf.data[sbase]);
        data.push(buf.data[sbase + 1]);
        data.push(buf.data[sbase + 2]);
        data.push(buf.data[sbase + 3]);
    }
    let r = LinearBuf { width: ow, height: oh, data };
    proof {
        assert(4 * ((ow as int) * (oh as int)) == ow * oh * 4) by (nonlinear_arith);
        assert(r.data@.len() == ow * oh * 4);
        assert forall|x: int, y: int, c: int|
            0 <= x < r.width && 0 <= y < r.height && 0 <= c < 4 implies #[trigger] r.sample(x, y, c)
            == buf.sample(
            o.src_x(w as int, h as int, x, y),
            o.src_y(w as int, h as int, x, y),
            c,
        ) by {
            let px = y * (ow as int) + x;
            assert(0 <= px < ow * oh && px % (ow as int) == x && px / (ow as int) == y) by {
                assert(0 <= px < ow * oh) by (nonlinear_arith)
                    requires
                        0 <= x < ow,
                        0 <= y < oh,
                        px == y * (ow as int) + x,
                ;
                lemma_fundamental_div_mod_converse(px, ow as int, y, x);
            }
            assert(r.data@[4 * px + c] == buf.data@[src_base(o, w as int, h as int, ow as int, px) + c]);
            assert((y * (ow as int) + x) * 4 + c == 4 * px + c) by (nonlinear_arith)
                requires
                    px == y * (ow as int) + x,
            ;
            lemma_src_in_range(o, w as int, h as int, x, y);
            let sx = o.src_x(w as int, h as int, x, y);
            let sy = o.src_y(w as int, h as int, x, y);
            assert(src_base(o, w as int, h as int, ow as int, px) == (sy * w + sx) * 4);
        }
    }
    r
}

/// Orientation round trip: orienting by `o` and then by its inverse
/// gives back the image one started with — the same dimensions, every
/// sample in place, the buffer identical byte for byte.
pub proof fn lemma_orientation_round_trip(o: Orientation, b: LinearBuf, f: LinearBuf, g: LinearBuf)
    requires
        b.wf(),
        g.wf(),
        oriented_by(o, b, f),
        oriented_by(o.spec_inverse(), f, g),
    ensures
        g.width == b.width,
        g.height == b.height,
        forall|x: int, y: int, c: int|
            0 <= x < b.width && 0 <= y < b.height && 0 <= c < 4 ==> #[trigger] g.sample(x, y, c) == b.sample(x, y, c),
        g.data@ == b.data@,
{
    let w = b.width as int;
    let h = b.height as int;
    let o2 = o.spec_inverse();
    assert forall|x: int, y: int, c: int|
        0 <= x < b.width && 0 <= y < b.height && 0 <= c < 4 implies #[trigger] g.sample(x, y, c)
        == b.sample(x, y, c) by {
        let u = o2.src_x(f.width as int, f.height as int, x, y);
        let v = o2.src_y(f.width as int, f.height as int, x, y);
        lemma_src_in_range(o2, f.width as int, f.height as int, x, y);
        assert(g.sample(x, y, c) == f.sample(u, v, c));
        lemma_src_in_range(o, w, h, u, v);
        assert(f.sample(u, v, c) == b.sample(o.src_x(w, h, u, v), o.src_y(w, h, u, v), c));
        assert(o.src_x(w, h, u, v) == x && o.src_y(w, h, u, v) == y);
    }
    assert(g.data@.len() == b.data@.len());
    assert forall|j: int| 0 <= j < b.data@.len() implies g.data@[j] == b.data@[j] by {
        let px = j / 4;
        let c = j % 4;
        lemma_fundamental_div_mod(j, 4);
        assert(w * h * 4 == 4 * (w * h)) by (nonlinear_arith);
        assert(0 <= px < w * h);
        let x = px % w;
        let y = px / w;
        lemma_fundamental_div_mod(px, w);
        assert(0 <= y < h) by (nonlinear_arith)
            requires
                1 <= w,
                1 <= h,
                0 <= px < w * h,
                px == w * y + x,
                0 <= x < w,
        ;
        assert((y * w + x) * 4 + c == j) by (nonlinear_arith)
            requires
                px == w * y + x,
                j == 4 * px + c,
        ;
        assert(g.sample(x, y, c) == g.data@[j]);
        assert(b.sample(x, y, c) == b.data@[j]);
    }
    assert(g.data@ =~= b.data@);
}

} // verus!
