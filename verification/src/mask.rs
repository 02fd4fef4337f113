//! The 8-bit mask bitmap algebra.
//!
//! A mask's influence bitmap holds one byte per pixel, the mask value
//! times 255, rounded. Sub-mask bitmaps combine into it under two modes:
//! additive combination keeps the larger value, subtractive combination
//! scales the current value by the complement of the incoming one.

use vstd::prelude::*;
use vstd::arithmetic::div_mod::{
    lemma_div_is_ordered, lemma_fundamental_div_mod, lemma_fundamental_div_mod_converse,
};

use base64::Engine;

use vstd::string::StringSliceAdditionalSpecFns;

use crate::types::SubMaskMode;

verus! {

/// Division of `a` by `d`, rounded to the nearest integer, halves away
/// from zero (for non-negative `a`).
pub open spec fn round_div(a: int, d: int) -> int {
    (2 * a + d) / (2 * d)
}

/// The subtractive blend in the 0..255 domain: the current value scaled
/// by the complement of the incoming value, `d · (255 − s) / 255`,
/// rounded to the nearest integer.
pub open spec fn sub_blend(d: u8, s: u8) -> int {
    round_div(d * (255 - s as int), 255)
}

/// What one blended byte is: additive keeps the larger value,
/// subtractive erases proportionally.
pub open spec fn blend_mode(mode: SubMaskMode, d: u8, s: u8) -> u8 {
    match mode {
        SubMaskMode::Additive => if d >= s { d } else { s },
        SubMaskMode::Subtractive => sub_blend(d, s) as u8,
    }
}

/// The subtractive blend stays in the byte range.
pub proof fn lemma_sub_blend_range(d: u8, s: u8)
    ensures
        0 <= sub_blend(d, s) <= 255,
{
    let x = d * (255 - s as int);
    assert(0 <= x <= 65025) by (nonlinear_arith)
        requires
            0 <= d <= 255,
            0 <= s <= 255,
            x == d * (255 - s as int),
    ;
    assert(2 * x + 255 <= 255 * 510 + 255);
    lemma_div_is_ordered(2 * x + 255, (255 * 510 + 255) as int, 510);
    assert((255 * 510 + 255) / 510 == 255) by {
        lemma_fundamental_div_mod_converse((255 * 510 + 255) as int, 510, 255, 255);
    }
    assert(sub_blend(d, s) <= 255);
    lemma_div_is_ordered(0, 2 * x + 255, 510);
}

/// The subtractive blend lands within half a quantization level of the
/// exact product: `255 · sub_blend(d, s)` differs from `d · (255 − s)`
/// by at most 127. In mask terms: stamping an additive value then a
/// subtractive one leaves `additive · (1 − subtractive)`, within 1/255.
pub proof fn lemma_sub_blend_close(d: u8, s: u8)
    ensures
        255 * sub_blend(d, s) <= d * (255 - s as int) + 127,
        d * (255 - s as int) <= 255 * sub_blend(d, s) + 127,
{
    let x = d * (255 - s as int);
    assert(0 <= x <= 65025) by (nonlinear_arith)
        requires
            0 <= d <= 255,
            0 <= s <= 255,
            x == d * (255 - s as int),
    ;
    let q = (2 * x + 255) / 510;
    let r = (2 * x + 255) % 510;
    lemma_fundamental_div_mod(2 * x + 255, 510);
    assert(2 * x + 255 == 510 * q + r);
    assert(0 <= r < 510);
    assert(2 * (255 * q - x) == 255 - r);
}

/// One step of sub-mask combination over whole bitmaps: pixelwise
/// blending when the lengths agree, and no effect otherwise.
pub open spec fn blend_seq(dst: Seq<u8>, src: Seq<u8>, mode: SubMaskMode) -> Seq<u8> {
    if dst.len() == src.len() {
        Seq::new(dst.len(), |i: int| blend_mode(mode, dst[i], src[i]))
    } else {
        dst
    }
}

/// Computes `blend_mode` on one pair of bytes.
pub fn blend_byte(mode: SubMaskMode, d: u8, s: u8) -> (r: u8)
    ensures
        r == blend_mode(mode, d, s),
{
    match mode {
        SubMaskMode::Additive => if d >= s { d } else { s },
        SubMaskMode::Subtractive => {
            let dd: u32 = d as u32;
            let sc: u32 = 255 - (s as u32);
            proof {
                lemma_sub_blend_range(d, s);
                assert(dd * sc <= 65025) by (nonlinear_arith)
                    requires
                        dd <= 255,
                        sc <= 255,
                ;
            }
            let n: u32 = dd * sc;
            ((2 * n + 255) / 510) as u8
        },
    }
}

/// Combines a rasterized sub-mask bitmap into the mask's bitmap under
/// the given mode. Bitmaps of different lengths do not combine; the
/// target is left as it was.
pub fn apply_submask_bitmap(target: &mut Vec<u8>, sub_bitmap: &Vec<u8>, mode: SubMaskMode)
    ensures
        final(target)@ == blend_seq(old(target)@, sub_bitmap@, mode),
{
    if target.len() != sub_bitmap.len() {
        return;
    }
    let n = target.len();
    for i in 0..n
        invariant
            n == target@.len(),
            n == old(target)@.len(),
            n == sub_bitmap@.len(),
            forall|j: int| 0 <= j < i ==> target@[j] == blend_mode(mode, old(target)@[j], sub_bitmap@[j]),
            forall|j: int| i <= j < n ==> target@[j] == old(target)@[j],
    {
        let v = blend_byte(mode, target[i], sub_bitmap[i]);
        target.set(i, v);
    }
    proof {
        assert(final(target)@ =~= blend_seq(old(target)@, sub_bitmap@, mode));
    }
}

/// One rasterized sub-mask, ready to combine: its visibility, its mode,
/// and its bitmap if it produced one (an absent bitmap contributes
/// nothing, like a data-URL sub-mask without data).
pub struct MaskLayer {
    pub visible: bool,
    pub mode: SubMaskMode,
    pub bitmap: Option<Vec<u8>>,
}

/// The mask bitmap that a base and a sequence of sub-mask layers
/// compose to, in order: each visible layer with a bitmap blends into
/// the running result.
pub open spec fn spec_compose(base: Seq<u8>, layers: Seq<MaskLayer>) -> Seq<u8>
    decreases layers.len(),
{
    if layers.len() == 0 {
        base
    } else {
        let rest = spec_compose(base, layers.drop_last());
        let l = layers.last();
        if l.visible && l.bitmap is Some {
            blend_seq(rest, l.bitmap->0@, l.mode)
        } else {
            rest
        }
    }
}

/// Builds a mask's influence bitmap from the brush-phase base and the
/// remaining sub-mask layers, in declared order.
pub fn compose_mask_bitmap(base: Vec<u8>, layers: &Vec<MaskLayer>) -> (r: Vec<u8>)
    ensures
        r@ == spec_compose(base@, layers@),
{
    let ghost base0 = base@;
    let mut acc = base;
    let n = layers.len();
    for k in 0..n
        invariant
            n == layers@.len(),
            acc@ == spec_compose(base0, layers@.take(k as int)),
    {
        proof {
            assert(layers@.take(k + 1).drop_last() =~= layers@.take(k as int));
            assert(layers@.take(k + 1).last() == layers@[k as int]);
        }
        let layer = &layers[k];
        if layer.visible {
            match &layer.bitmap {
                Some(b) => {
                    apply_submask_bitmap(&mut acc, b, layer.mode);
                },
                None => {},
            }
        }
    }
    proof {
        assert(layers@.take(n as int) =~= layers@);
    }
    acc
}

/// A mask whose sub-mask layers are all invisible or without bitmaps
/// composes to its base unchanged; over an all-zero brush base such a
/// mask has no influence anywhere.
pub proof fn lemma_compose_inert_layers(base: Seq<u8>, layers: Seq<MaskLayer>)
    requires
        forall|i: int| 0 <= i < layers.len() ==> !(#[trigger] layers[i]).visible || layers[i].bitmap is None,
    ensures
        spec_compose(base, layers) == base,
    decreases layers.len(),
{
    if layers.len() > 0 {
        lemma_compose_inert_layers(base, layers.drop_last());
    }
}

/// Index `i` clamped into `0 .. n`: the edge-replication rule of the
/// blur, which reads the first or last element for out-of-range taps.
pub open spec fn clamp_idx(i: int, n: int) -> int {
    if i < 0 {
        0
    } else if i >= n {
        n - 1
    } else {
        i
    }
}

/// Sum of `cnt` consecutive taps of a line of `n` elements starting at
/// offset `lo`, with edge replication. The line starts at `base` and
/// advances by `stride` per element.
pub open spec fn line_sum(data: Seq<u8>, base: int, stride: int, n: int, lo: int, cnt: nat) -> int
    decreases cnt,
{
    if cnt == 0 {
        0
    } else {
        data[base + clamp_idx(lo, n) * stride] + line_sum(data, base, stride, n, lo + 1, (cnt - 1) as nat)
    }
}

/// One blurred element: the average of the `2·radius + 1` taps centred
/// on `pos`, rounded to the nearest integer.
pub open spec fn blur_px(data: Seq<u8>, base: int, stride: int, n: int, pos: int, radius: int) -> u8 {
    round_div(line_sum(data, base, stride, n, pos - radius, (2 * radius + 1) as nat), 2 * radius + 1) as u8
}

/// The horizontal blur pass over a `w × h` row-major bitmap.
pub open spec fn hblur(src: Seq<u8>, w: int, h: int, r: int) -> Seq<u8> {
    Seq::new((w * h) as nat, |i: int| blur_px(src, (i / w) * w, 1, w, i % w, r))
}

/// The vertical blur pass over a `w × h` row-major bitmap.
pub open spec fn vblur(src: Seq<u8>, w: int, h: int, r: int) -> Seq<u8> {
    Seq::new((w * h) as nat, |i: int| blur_px(src, i % w, w, h, i / w, r))
}

/// The separable box blur: a horizontal pass then a vertical pass, each
/// rounding to the nearest byte; a radius of zero or an empty bitmap is
/// left as it is.
pub open spec fn spec_box_blur(src: Seq<u8>, w: int, h: int, r: int) -> Seq<u8> {
    if r == 0 || w == 0 || h == 0 {
        src
    } else {
        vblur(hblur(src, w, h, r), w, h, r)
    }
}

/// Extending a tap window by one adds the clamped tap after it.
proof fn lemma_line_sum_snoc(data: Seq<u8>, base: int, stride: int, n: int, lo: int, cnt: nat)
    ensures
        line_sum(data, base, stride, n, lo, (cnt + 1) as nat) == line_sum(data, base, stride, n, lo, cnt)
            + data[base + clamp_idx(lo + cnt, n) * stride],
    decreases cnt,
{
    assert(line_sum(data, base, stride, n, lo, (cnt + 1) as nat) == data[base + clamp_idx(lo, n) * stride]
        + line_sum(data, base, stride, n, lo + 1, cnt));
    if cnt > 0 {
        lemma_line_sum_snoc(data, base, stride, n, lo + 1, (cnt - 1) as nat);
        assert(line_sum(data, base, stride, n, lo, cnt) == data[base + clamp_idx(lo, n) * stride]
            + line_sum(data, base, stride, n, lo + 1, (cnt - 1) as nat));
    }
}

/// A window sum over valid taps lies between 0 and 255 per tap.
proof fn lemma_line_sum_bounds(data: Seq<u8>, base: int, stride: int, n: int, lo: int, cnt: nat)
    requires
        n >= 1,
        stride >= 1,
        0 <= base,
        base + (n - 1) * stride < data.len(),
    ensures
        0 <= line_sum(data, base, stride, n, lo, cnt) <= 255 * cnt,
    decreases cnt,
{
    if cnt > 0 {
        let c = clamp_idx(lo, n);
        assert(c * stride <= (n - 1) * stride) by (nonlinear_arith)
            requires
                0 <= c <= n - 1,
                stride >= 1,
        ;
        assert(0 <= c * stride) by (nonlinear_arith)
            requires
                0 <= c,
                stride >= 1,
        ;
        lemma_line_sum_bounds(data, base, stride, n, lo + 1, (cnt - 1) as nat);
    }
}

/// Computes one blurred element by summing its clamped tap window.
fn blurred_at(data: &Vec<u8>, base: usize, stride: usize, n: usize, pos: usize, radius: usize) -> (v: u8)
    requires
        n >= 1,
        stride >= 1,
        n <= data@.len(),
        base + (n - 1) * stride < data@.len(),
        pos < n,
        radius <= 1000000,
        data@.len() + 2000002 <= usize::MAX,
    ensures
        v == blur_px(data@, base as int, stride as int, n as int, pos as int, radius as int),
{
    let cnt: usize = 2 * radius + 1;
    let ghost lo: int = pos - radius;
    let mut sum: u64 = 0;
    let mut k: usize = 0;
    while k < cnt
        invariant
            k <= cnt,
            cnt == 2 * radius + 1,
            radius <= 1000000,
            n >= 1,
            stride >= 1,
            n <= data@.len(),
            base + (n - 1) * stride < data@.len(),
            pos < n,
            data@.len() + 2000002 <= usize::MAX,
            lo == pos - radius,
            sum == line_sum(data@, base as int, stride as int, n as int, lo, k as nat),
            sum <= 255 * k,
        decreases cnt - k,
    {
        let off = pos + k;
        let idx: usize = if off <= radius {
            0
        } else if off - radius >= n {
            n - 1
        } else {
            off - radius
        };
        proof {
            assert(idx == clamp_idx(lo + k, n as int));
            assert(idx * stride <= (n - 1) * stride && 0 <= idx * stride) by (nonlinear_arith)
                requires
                    0 <= idx <= n - 1,
                    stride >= 1,
            ;
            lemma_line_sum_snoc(data@, base as int, stride as int, n as int, lo, k as nat);
        }
        sum = sum + data[base + idx * stride] as u64;
        k = k + 1;
    }
    proof {
        lemma_line_sum_bounds(data@, base as int, stride as int, n as int, lo, cnt as nat);
        let ls = line_sum(data@, base as int, stride as int, n as int, lo, cnt as nat);
        assert(2 * ls + cnt <= 511 * cnt);
        lemma_div_is_ordered(2 * ls + cnt, 511 * (cnt as int), 2 * (cnt as int));
        assert(511 * (cnt as int) == 255 * (2 * (cnt as int)) + cnt);
        lemma_fundamental_div_mod_converse(511 * (cnt as int), 2 * (cnt as int), 255, cnt as int);
        lemma_div_is_ordered(0, 2 * ls + cnt, 2 * (cnt as int));
    }
    ((2 * sum + cnt as u64) / (2 * cnt as u64)) as u8
}

/// Blurs a `width × height` row-major 8-bit bitmap with a separable box
/// filter of the given radius, replicating edge values; the result of
/// each pass is the rounded window average. A radius of zero or an
/// empty bitmap comes back unchanged.
pub fn box_blur_u8(src: &Vec<u8>, width: usize, height: usize, radius: usize) -> (r: Vec<u8>)
    requires
        src@.len() == width * height,
        radius <= 1000000,
        width * height + 2000002 <= usize::MAX,
    ensures
        r@ == spec_box_blur(src@, width as int, height as int, radius as int),
{
    if radius == 0 || width == 0 || height == 0 {
        let mut out: Vec<u8> = Vec::new();
        let n = src.len();
        for i in 0..n
            invariant
                n == src@.len(),
                out@ =~= src@.take(i as int),
        {
            out.push(src[i]);
        }
        proof {
            assert(src@.take(n as int) =~= src@);
        }
        return out;
    }
    let w = width;
    let h = height;
    let total = src.len();
    let ghost hpass = hblur(src@, w as int, h as int, radius as int);
    let mut tmp: Vec<u8> = Vec::new();
    for i in 0..total
        invariant
            w >= 1,
            h >= 1,
            radius >= 1,
            radius <= 1000000,
            total == src@.len(),
            src@.len() == w * h,
            w * h + 2000002 <= usize::MAX,
            hpass == hblur(src@, w as int, h as int, radius as int),
            tmp@.len() == i,
            forall|j: int| 0 <= j < i ==> tmp@[j] == hpass[j],
    {
        let y = i / w;
        let x = i % w;
        proof {
            lemma_fundamental_div_mod(i as int, w as int);
            assert(y < h && y * w + (w - 1) < w * h && y * w <= i) by (nonlinear_arith)
                requires
                    w >= 1,
                    h >= 1,
                    i < w * h,
                    y == i / w,
                    i == w * (i / w) + i % w,
                    0 <= i % w < w,
            ;
        }
        let v = blurred_at(src, y * w, 1, w, x, radius);
        proof {
            assert(hpass[i as int] == v);
        }
        tmp.push(v);
    }
    proof {
        assert(tmp@ =~= hpass);
    }
    let ghost vpass = vblur(hpass, w as int, h as int, radius as int);
    let mut dst: Vec<u8> = Vec::new();
    for i in 0..total
        invariant
            w >= 1,
            h >= 1,
            radius >= 1,
            radius <= 1000000,
            total == w * h,
            tmp@.len() == w * h,
            w * h + 2000002 <= usize::MAX,
            tmp@ == hpass,
            vpass == vblur(hpass, w as int, h as int, radius as int),
            dst@.len() == i,
            forall|j: int| 0 <= j < i ==> dst@[j] == vpass[j],
    {
        let y = i / w;
        let x = i % w;
        proof {
            lemma_fundamental_div_mod(i as int, w as int);
            assert(y < h && x + (h - 1) * w < w * h && h <= w * h) by (nonlinear_arith)
                requires
                    w >= 1,
                    h >= 1,
                    i < w * h,
                    y == i / w,
                    x == i % w,
                    i == w * (i / w) + i % w,
                    0 <= i % w < w,
            ;
        }
        let v = blurred_at(&tmp, x, w, h, y, radius);
        proof {
            assert(vpass[i as int] == v);
        }
        dst.push(v);
    }
    proof {
        assert(dst@ =~= vpass);
    }
    dst
}

/// One mask entry as the payload parser found it, carrying its
/// adjustments (and curves) opaquely as `A`. The two wire forms are
/// told apart by key presence: a value with a `subMasks` key is the
/// full form, one with an `enabled` key is the legacy flat form.
/// `has_sub_masks` records whether the full form's `subMasks` array
/// holds anything at all.
pub enum MaskEntry<A> {
    Full { visible: bool, invert: bool, opacity_bits: u32, has_sub_masks: bool, adjustments: A },
    Legacy { enabled: bool, adjustments: A },
}

/// One mask ready for rendering. `needs_bitmap` says whether its
/// sub-masks are to be rasterized into an influence bitmap; a mask
/// without one — a full mask with no sub-masks, or a legacy mask —
/// selects every pixel in full (influence 1 everywhere). When
/// `full_opacity` holds the mask applies at opacity 1 and
/// `opacity_bits` carries nothing.
pub struct MaskSlot<A> {
    pub invert: bool,
    pub full_opacity: bool,
    pub opacity_bits: u32,
    pub needs_bitmap: bool,
    pub adjustments: A,
}

/// The slot one entry contributes: an invisible full mask and a
/// disabled legacy mask contribute nothing; a visible full mask keeps
/// its inversion and opacity and asks for a bitmap exactly when it
/// has sub-masks to rasterize; an enabled legacy mask applies
/// globally, uninverted, at full opacity.
pub open spec fn spec_entry_slot<A>(e: MaskEntry<A>) -> Seq<MaskSlot<A>> {
    match e {
        MaskEntry::Full { visible, invert, opacity_bits, has_sub_masks, adjustments } => {
            if visible {
                seq![
                    (MaskSlot {
                        invert,
                        full_opacity: false,
                        opacity_bits,
                        needs_bitmap: has_sub_masks,
                        adjustments,
                    }),
                ]
            } else {
                Seq::empty()
            }
        },
        MaskEntry::Legacy { enabled, adjustments } => {
            if enabled {
                seq![
                    (MaskSlot {
                        invert: false,
                        full_opacity: true,
                        opacity_bits: 0u32,
                        needs_bitmap: false,
                        adjustments,
                    }),
                ]
            } else {
                Seq::empty()
            }
        },
    }
}

/// The render plan of a masks array: each entry's contribution, in
/// declared order.
pub open spec fn spec_mask_plan<A>(entries: Seq<MaskEntry<A>>) -> Seq<MaskSlot<A>>
    decreases entries.len(),
{
    if entries.len() == 0 {
        Seq::empty()
    } else {
        spec_mask_plan(entries.drop_last()) + spec_entry_slot(entries.last())
    }
}

/// Turns parsed mask entries into the masks a render applies, in
/// order: it keeps visible full masks with their inversion and
/// opacity, turns enabled legacy masks into global full-opacity
/// masks, and drops the rest. Only masks with sub-masks are marked
/// for rasterization; the others select every pixel in full.
pub fn mask_plan<A>(entries: Vec<MaskEntry<A>>) -> (r: Vec<MaskSlot<A>>)
    ensures
        r@ == spec_mask_plan(entries@),
{
    let ghost entries0 = entries@;
    let n = entries.len();
    let mut out: Vec<MaskSlot<A>> = Vec::new();
    let mut rest = entries;
    let mut taken: usize = 0;
    loop
        invariant
            n == entries0.len(),
            taken + rest@.len() == entries0.len(),
            rest@ =~= entries0.skip(taken as int),
            out@ == spec_mask_plan(entries0.take(taken as int)),
        ensures
            taken == entries0.len(),
            out@ == spec_mask_plan(entries0.take(taken as int)),
        decreases rest@.len(),
    {
        if rest.len() == 0 {
            break;
        }
        let e = rest.remove(0);
        proof {
            assert(e == entries0[taken as int]);
            assert(entries0.take(taken + 1).drop_last() =~= entries0.take(taken as int));
            assert(entries0.take(taken + 1).last() == entries0[taken as int]);
        }
        match e {
            MaskEntry::Full { visible, invert, opacity_bits, has_sub_masks, adjustments } => {
                if visible {
                    out.push(MaskSlot {
                        invert,
                        full_opacity: false,
                        opacity_bits,
                        needs_bitmap: has_sub_masks,
                        adjustments,
                    });
                }
            },
            MaskEntry::Legacy { enabled, adjustments } => {
                if enabled {
                    out.push(MaskSlot {
                        invert: false,
                        full_opacity: true,
                        opacity_bits: 0,
                        needs_bitmap: false,
                        adjustments,
                    });
                }
            },
        }
        taken = taken + 1;
        proof {
            assert(rest@ =~= entries0.skip(taken as int));
        }
    }
    proof {
        assert(entries0.take(taken as int) =~= entries0);
    }
    out
}

/// The byte text `base64,`: the marker that separates a data URL's
/// header from its payload.
pub open spec fn marker_bytes() -> Seq<u8> {
    seq![0x62u8, 0x61u8, 0x73u8, 0x65u8, 0x36u8, 0x34u8, 0x2cu8]
}

/// Whether the marker text starts at offset `i` of `s`.
pub open spec fn is_marker_at(s: Seq<u8>, i: int) -> bool {
    0 <= i && i + 7 <= s.len() && s.subrange(i, i + 7) == marker_bytes()
}

/// The first offset at or after `i` where the marker starts.
pub open spec fn find_marker_from(s: Seq<u8>, i: nat) -> Option<int>
    decreases s.len() - i,
{
    if i + 7 > s.len() {
        None
    } else if is_marker_at(s, i as int) {
        Some(i as int)
    } else {
        find_marker_from(s, i + 1)
    }
}

/// The first offset where the marker starts, if it occurs at all.
pub open spec fn spec_find_marker(s: Seq<u8>) -> Option<int> {
    find_marker_from(s, 0)
}

/// What the standard-alphabet base64 decoder returns for the given
/// input bytes, `None` standing for its rejection of malformed input.
pub uninterp spec fn b64_of(input: Seq<u8>) -> Option<Seq<u8>>;

/// Relies on base64's `STANDARD` engine `decode`: the result is a
/// function of the input bytes alone.
#[verifier::external_body]
fn base64_decode(input: &Vec<u8>) -> (r: Option<Vec<u8>>)
    ensures
        r is Some <==> b64_of(input@) is Some,
        r is Some ==> r->0@ == b64_of(input@)->0,
{
    match base64::engine::general_purpose::STANDARD.decode(input.as_slice()) {
        Ok(v) => Some(v),
        Err(_) => None,
    }
}

/// One byte of the marker text.
fn marker_byte(j: usize) -> (b: u8)
    requires
        j < 7,
    ensures
        b == marker_bytes()[j as int],
{
    match j {
        0 => 0x62,
        1 => 0x61,
        2 => 0x73,
        3 => 0x65,
        4 => 0x36,
        5 => 0x34,
        _ => 0x2c,
    }
}

/// Decodes the base64 payload of a data URL: everything after the
/// first `base64,` marker is handed to the decoder. A text without
/// the marker, like a payload the decoder rejects, yields `None`.
pub fn decode_data_url(data_url: &str) -> (r: Option<Vec<u8>>)
    ensures
        ({
            let bytes = data_url.spec_bytes();
            match spec_find_marker(bytes) {
                None => r is None,
                Some(i) => {
                    &&& (r is Some <==> b64_of(bytes.skip(i + 7)) is Some)
                    &&& (r is Some ==> r->0@ == b64_of(bytes.skip(i + 7))->0)
                },
            }
        }),
{
    let bytes: &[u8] = data_url.as_bytes();
    let n = bytes.len();
    if n < 7 {
        return None;
    }
    let limit = n - 7;
    let mut i: usize = 0;
    while i <= limit
        invariant
            bytes@ == data_url.spec_bytes(),
            n == bytes@.len(),
            7 <= n,
            limit == n - 7,
            i <= limit + 1,
            spec_find_marker(bytes@) == find_marker_from(bytes@, i as nat),
        decreases limit + 1 - i,
    {
        let mut ok = true;
        let mut j: usize = 0;
        while j < 7
            invariant
                bytes@ == data_url.spec_bytes(),
                n == bytes@.len(),
                i + 7 <= n,
                j <= 7,
                ok == (forall|k: int| 0 <= k < j ==> bytes@[i + k] == #[trigger] marker_bytes()[k]),
            decreases 7 - j,
        {
            if bytes[i + j] != marker_byte(j) {
                ok = false;
                proof {
                    assert(bytes@[i + j] != marker_bytes()[j as int]);
                }
                j = 7;
            } else {
                proof {
                    assert(bytes@[i + j as int] == marker_bytes()[j as int]);
                }
                j = j + 1;
            }
        }
        proof {
            if ok {
                assert(bytes@.subrange(i as int, i + 7) =~= marker_bytes());
                assert(is_marker_at(bytes@, i as int));
            } else {
                assert(!is_marker_at(bytes@, i as int)) by {
                    if is_marker_at(bytes@, i as int) {
                        assert(forall|k: int| 0 <= k < 7 ==> bytes@[i + k] == #[trigger] marker_bytes()[k]) by {
                            assert(forall|k: int| 0 <= k < 7
                                ==> bytes@.subrange(i as int, i + 7)[k] == #[trigger] marker_bytes()[k]);
                        }
                    }
                }
            }
        }
        if ok {
            let mut payload: Vec<u8> = Vec::new();
            let mut k: usize = i + 7;
            while k < n
                invariant
                    bytes@ == data_url.spec_bytes(),
                    n == bytes@.len(),
                    i + 7 <= k <= n,
                    payload@ =~= bytes@.subrange(i + 7, k as int),
                decreases n - k,
            {
                payload.push(bytes[k]);
                k = k + 1;
            }
            proof {
                assert(payload@ =~= bytes@.skip(i + 7));
                assert(spec_find_marker(bytes@) == Some(i as int));
            }
            return base64_decode(&payload);
        }
        i = i + 1;
    }
    proof {
        assert(find_marker_from(bytes@, i as nat) is None);
    }
    None
}

/// What image's built-in decoder (the format read from the magic
/// bytes) followed by its grayscale conversion produce for the given
/// encoded bytes: the luma pixels and their size, a function of the
/// bytes alone. `None` stands for an unrecognized or rejected
/// encoding.
pub uninterp spec fn gray_image_of(bytes: Seq<u8>) -> Option<(Seq<u8>, u32, u32)>;

/// Relies on image's `guess_format` (its built-in magic-byte table
/// alone), `load_from_memory_with_format` (whose built-in-format path
/// uses only the crate's own decoders) and `to_luma8`. Unlike plain
/// `load_from_memory`, this decode path consults none of the crate's
/// runtime-registered detection or decoding hooks, so the result
/// depends on the encoded bytes alone; a luma image holds one byte
/// per pixel.
#[verifier::external_body]
fn decode_gray(bytes: &Vec<u8>) -> (r: Option<(Vec<u8>, u32, u32)>)
    ensures
        r is Some <==> gray_image_of(bytes@) is Some,
        r is Some ==> {
            let (g, gw, gh) = gray_image_of(bytes@)->0;
            &&& (r->0).0@ == g
            &&& (r->0).1 == gw
            &&& (r->0).2 == gh
            &&& g.len() == gw * gh
        },
{
    let format = match image::guess_format(bytes.as_slice()) {
        Ok(f) => f,
        Err(_) => return None,
    };
    let decoded = match image::load_from_memory_with_format(bytes.as_slice(), format) {
        Ok(d) => d,
        Err(_) => return None,
    };
    let gray = decoded.to_luma8();
    let (gw, gh) = (gray.width(), gray.height());
    Some((gray.into_raw(), gw, gh))
}

/// What image's triangle-filter `resize` produces for a `gw × gh`
/// grayscale bitmap resampled to `tw × th`; a function of these
/// alone.
pub uninterp spec fn triangle_resized_of(g: Seq<u8>, gw: u32, gh: u32, tw: u32, th: u32) -> Seq<u8>;

/// Relies on image's `resize` with the triangle filter on a grayscale
/// buffer: deterministic in its inputs, one byte per target pixel.
#[verifier::external_body]
fn resize_gray(g: &Vec<u8>, gw: u32, gh: u32, tw: u32, th: u32) -> (r: Vec<u8>)
    requires
        g@.len() == (gw as int) * (gh as int),
        1 <= gw,
        1 <= gh,
        1 <= tw,
        1 <= th,
        (tw as int) * (th as int) <= usize::MAX,
    ensures
        r@ == triangle_resized_of(g@, gw, gh, tw, th),
        r@.len() == (tw as int) * (th as int),
{
    let img = image::GrayImage::from_raw(gw, gh, g.clone()).expect("the buffer length matches");
    image::imageops::resize(&img, tw, th, image::imageops::FilterType::Triangle).into_raw()
}

/// The grayscale bitmap a decoded `gw × gh` luma image contributes at
/// the target size: taken as it is when the sizes agree, resampled
/// with the triangle filter otherwise; an empty decoded image cannot
/// be resampled and contributes nothing.
pub open spec fn spec_sized_gray(g: Seq<u8>, gw: u32, gh: u32, width: u32, height: u32) -> Option<
    Seq<u8>,
> {
    if gw == width && gh == height {
        Some(g)
    } else if gw == 0 || gh == 0 {
        None
    } else {
        Some(triangle_resized_of(g, gw, gh, width, height))
    }
}

/// The influence bitmap a data-URL sub-mask contributes: the payload
/// after the `base64,` marker, decoded as an image, read as grayscale
/// at the mask's dimensions, and softened by a box blur of the given
/// radius. A missing marker or undecodable data contribute nothing.
pub fn ai_subject_bitmap(data_url: &str, width: u32, height: u32, blur_radius: usize) -> (r: Option<
    Vec<u8>,
>)
    requires
        1 <= width,
        1 <= height,
        blur_radius <= 1000000,
        (width as int) * (height as int) + 2000002 <= usize::MAX,
    ensures
        ({
            let bytes = data_url.spec_bytes();
            match spec_find_marker(bytes) {
                None => r is None,
                Some(i) => match b64_of(bytes.skip(i + 7)) {
                    None => r is None,
                    Some(payload) => match gray_image_of(payload) {
                        None => r is None,
                        Some(gi) => {
                            let (g, gw, gh) = gi;
                            match spec_sized_gray(g, gw, gh, width, height) {
                                None => r is None,
                                Some(sized) => r is Some && r->0@ == spec_box_blur(
                                    sized,
                                    width as int,
                                    height as int,
                                    blur_radius as int,
                                ),
                            }
                        },
                    },
                },
            }
        }),
{
    let payload = match decode_data_url(data_url) {
        Some(p) => p,
        None => {
            return None;
        },
    };
    let (g, gw, gh) = match decode_gray(&payload) {
        Some(t) => t,
        None => {
            return None;
        },
    };
    let sized = if gw == width && gh == height {
        g
    } else if gw == 0 || gh == 0 {
        return None;
    } else {
        resize_gray(&g, gw, gh, width, height)
    };
    if blur_radius >= 1 {
        Some(box_blur_u8(&sized, width as usize, height as usize, blur_radius))
    } else {
        Some(sized)
    }
}

} // verus!
