//! Fitting a decoded image into a preview box while preserving its
//! aspect ratio.

use vstd::prelude::*;
use vstd::arithmetic::div_mod::{
    lemma_div_is_ordered, lemma_div_multiples_vanish, lemma_fundamental_div_mod,
};

verus! {

/// Whether a `w × h` image already fits in a `mw × mh` box.
pub open spec fn fits_box(w: int, h: int, mw: int, mh: int) -> bool {
    w <= mw && h <= mh
}

/// The target size of a `w × h` image fitted into a `mw × mh` box: the
/// image is unchanged when it fits; otherwise the tighter side of the
/// box is taken in full and the other side scaled by the same ratio,
/// rounded down but never below one pixel.
pub open spec fn spec_fit(w: int, h: int, mw: int, mh: int) -> (int, int) {
    if fits_box(w, h, mw, mh) {
        (w, h)
    } else if mw * h <= mh * w {
        (mw, if (h * mw) / w < 1 { 1int } else { (h * mw) / w })
    } else {
        (if (w * mh) / h < 1 { 1int } else { (w * mh) / h }, mh)
    }
}

/// Fitting preserves the aspect ratio to within one pixel: the cross
/// products of the fitted and the source sizes differ by less than
/// the longer source side (and not at all when the image already
/// fits).
pub proof fn lemma_fit_aspect(w: int, h: int, mw: int, mh: int)
    requires
        1 <= w,
        1 <= h,
        1 <= mw,
        1 <= mh,
    ensures
        ({
            let (tw, th) = spec_fit(w, h, mw, mh);
            let limit = if w >= h { w } else { h };
            &&& -limit < h * tw - w * th < limit
            &&& (fits_box(w, h, mw, mh) ==> h * tw - w * th == 0)
        }),
{
    let (tw, th) = spec_fit(w, h, mw, mh);
    let limit = if w >= h { w } else { h };
    if fits_box(w, h, mw, mh) {
        assert(h * w - w * h == 0) by (nonlinear_arith);
    } else if mw * h <= mh * w {
        let q = (h * mw) / w;
        assert(1 <= h * mw) by (nonlinear_arith)
            requires
                1 <= h,
                1 <= mw,
        ;
        lemma_fundamental_div_mod(h * mw, w);
        vstd::arithmetic::div_mod::lemma_div_pos_is_pos(h * mw, w);
        assert(h * mw == w * q + (h * mw) % w);
        assert(0 <= (h * mw) % w < w);
        if q < 1 {
            // The floor collapsed to zero, so the height is held at 1
            // and the difference is h * mw - w, strictly between -w
            // and 0.
            assert(tw == mw && th == 1);
            assert(q == 0);
            assert(w * q == 0) by (nonlinear_arith)
                requires
                    q == 0,
            ;
            assert(h * mw < w);
            assert(-limit < h * tw - w * th < limit);
        } else {
            assert(tw == mw && th == q);
            assert(h * tw - w * th == (h * mw) % w);
            assert(-limit < h * tw - w * th < limit);
        }
    } else {
        let q = (w * mh) / h;
        assert(1 <= w * mh) by (nonlinear_arith)
            requires
                1 <= w,
                1 <= mh,
        ;
        lemma_fundamental_div_mod(w * mh, h);
        vstd::arithmetic::div_mod::lemma_div_pos_is_pos(w * mh, h);
        assert(w * mh == h * q + (w * mh) % h);
        assert(0 <= (w * mh) % h < h);
        if q < 1 {
            assert(tw == 1 && th == mh);
            assert(q == 0);
            assert(h * q == 0) by (nonlinear_arith)
                requires
                    q == 0,
            ;
            assert(w * mh < h);
            assert(-limit < h * tw - w * th < limit);
        } else {
            assert(tw == q && th == mh);
            assert(h * tw - w * th == -((w * mh) % h));
            assert(-limit < h * tw - w * th < limit);
        }
    }
}

/// Computes the fitted target size. The result is exactly `spec_fit`,
/// stays inside the box, never exceeds the source size, and never
/// collapses to zero.
pub fn fit_dimensions(w: u32, h: u32, max_w: u32, max_h: u32) -> (r: (u32, u32))
    requires
        1 <= w,
        1 <= h,
        1 <= max_w,
        1 <= max_h,
    ensures
        (r.0 as int, r.1 as int) == spec_fit(w as int, h as int, max_w as int, max_h as int),
        1 <= r.0 <= max_w,
        1 <= r.1 <= max_h,
        r.0 <= w,
        r.1 <= h,
{
    if w <= max_w && h <= max_h {
        return (w, h);
    }
    let ww = w as u64;
    let hh = h as u64;
    let mw = max_w as u64;
    let mh = max_h as u64;
    proof {
        assert(mw * hh < 0x10000000000000000 && mh * ww < 0x10000000000000000 && hh * mw
            < 0x10000000000000000 && ww * mh < 0x10000000000000000) by (nonlinear_arith)
            requires
                0 <= ww <= 0xffffffff,
                0 <= hh <= 0xffffffff,
                0 <= mw <= 0xffffffff,
                0 <= mh <= 0xffffffff,
        ;
    }
    if mw * hh <= mh * ww {
        proof {
            // The width is the binding side, so the source is wider
            // than the box: w > mw.
            assert(mw < ww) by (nonlinear_arith)
                requires
                    1 <= ww,
                    1 <= hh,
                    1 <= mw,
                    1 <= mh,
                    mw * hh <= mh * ww,
                    !(ww <= mw && hh <= mh),
            ;
            // The scaled height stays at or under mh and under h.
            assert(hh * mw <= mh * ww && hh * mw <= hh * ww) by (nonlinear_arith)
                requires
                    1 <= ww,
                    1 <= hh,
                    mw < ww,
                    mw * hh <= mh * ww,
            ;
            lemma_div_is_ordered(hh * mw, mh * ww, ww as int);
            lemma_div_multiples_vanish(mh as int, ww as int);
            lemma_div_is_ordered(hh * mw, hh * ww, ww as int);
            lemma_div_multiples_vanish(hh as int, ww as int);
            lemma_div_is_ordered(0, hh * mw, ww as int);
        }
        let th64 = (hh * mw) / ww;
        let th = if th64 == 0 { 1u32 } else { th64 as u32 };
        (max_w, th)
    } else {
        proof {
            assert(mh < hh) by (nonlinear_arith)
                requires
                    1 <= ww,
                    1 <= hh,
                    1 <= mw,
                    1 <= mh,
                    mh * ww < mw * hh,
                    !(ww <= mw && hh <= mh),
            ;
            assert(ww * mh <= mw * hh && ww * mh <= ww * hh) by (nonlinear_arith)
                requires
                    1 <= ww,
                    1 <= hh,
                    mh < hh,
                    mh * ww < mw * hh,
            ;
            lemma_div_is_ordered(ww * mh, mw * hh, hh as int);
            lemma_div_multiples_vanish(mw as int, hh as int);
            lemma_div_is_ordered(ww * mh, ww * hh, hh as int);
            lemma_div_multiples_vanish(ww as int, hh as int);
            lemma_div_is_ordered(0, ww * mh, hh as int);
        }
        let tw64 = (ww * mh) / hh;
        let tw = if tw64 == 0 { 1u32 } else { tw64 as u32 };
        (tw, max_h)
    }
}

} // verus!
