//! The render drivers.
//!
//! The exact parts of a render — box fitting, cache management, run-time
//! shape checks, quality selection, JPEG framing — are here and are
//! verified. The floating-point stages (RAW development, resampling,
//! per-pixel shading) come from a backend the host supplies; the
//! drivers state nothing about those results beyond what they check.

use vstd::prelude::*;

use crate::buffer::LinearBuf;
use crate::geometry::fit_dimensions;
use crate::session::SessionStore;
use crate::types::{EngineError, PreviewKind};

verus! {

/// What the JPEG encoder produces for an RGB8 buffer of the given
/// dimensions at the given quality; a function of these alone.
pub uninterp spec fn jpeg_of(rgb: Seq<u8>, width: u32, height: u32, quality: u8) -> Seq<u8>;

/// Relies on image's `JpegEncoder` writing into a `Vec`: the encoding
/// depends on buffer, dimensions and quality alone, and succeeds
/// exactly for dimensions in 1..=65535 (a `Vec` writer cannot fail;
/// outside that range the encoder reports an invalid size). The
/// buffer length must match the dimensions, as the encoder asserts on
/// a mismatch.
#[verifier::external_body]
fn encode_jpeg(rgb: &Vec<u8>, width: u32, height: u32, quality: u8) -> (r: Option<Vec<u8>>)
    requires
        rgb@.len() == 3 * (width as int) * (height as int),
    ensures
        r is Some <==> (1 <= width <= 65535 && 1 <= height <= 65535),
        r is Some ==> r->0@ == jpeg_of(rgb@, width, height, quality),
{
    let mut out: Vec<u8> = Vec::new();
    let mut encoder = image::codecs::jpeg::JpegEncoder::new_with_quality(&mut out, quality);
    match encoder.encode(rgb.as_slice(), width, height, image::ExtendedColorType::Rgb8) {
        Ok(()) => Some(out),
        Err(_) => None,
    }
}

/// The JPEG quality of a render: 88 on the fast preview path, 96 for
/// a full export.
pub open spec fn spec_quality(fast_demosaic: bool) -> u8 {
    if fast_demosaic {
        88u8
    } else {
        96u8
    }
}

/// The floating-point stages of the pipeline, supplied by the host.
/// The library drives them but holds no model of their pixel values:
/// every shape it needs is checked at run time.
pub trait RenderBackend {
    /// Decodes and develops RAW bytes into a linear RGBA buffer, with
    /// highlight compression and orientation normalization applied.
    fn develop(&mut self, raw_bytes: &Vec<u8>, fast_demosaic: bool) -> Result<LinearBuf, EngineError>;

    /// Resamples a linear buffer to exactly the given size.
    fn resize(&mut self, buf: &LinearBuf, target_w: u32, target_h: u32) -> LinearBuf;

    /// The canonical text of the `masks` part of an adjustments
    /// payload: the key under which its rasterization is cached.
    fn masks_key(&mut self, adjustments_json: Option<&str>) -> String;

    /// Rasterizes every mask of the payload at the given dimensions,
    /// one optional influence bitmap per mask.
    fn rasterize_masks(&mut self, adjustments_json: Option<&str>, width: u32, height: u32) -> Vec<
        Option<Vec<u8>>,
    >;

    /// Applies the payload to every pixel of the buffer, mixing in
    /// per-mask adjustments by the influence the bitmaps give, and
    /// returns 8-bit sRGB triples, row-major.
    fn shade(
        &mut self,
        buf: &LinearBuf,
        adjustments_json: Option<&str>,
        bitmaps: &Vec<Option<Vec<u8>>>,
    ) -> Vec<u8>;
}

/// Renders RAW bytes in one shot: develop, fit into the requested box,
/// shade, and encode as a baseline JPEG at quality 88 (fast path) or
/// 96. A reply, when one comes, is the JPEG encoding of some RGB
/// buffer whose dimensions respect the requested box. A failure is
/// one of two kinds: a development that failed or produced a
/// misshapen buffer is a decode error, and an encoder refusal or
/// misshapen shading is an encode error; no other error comes out.
pub fn render_raw<B: RenderBackend>(
    raw_bytes: &Vec<u8>,
    adjustments_json: Option<&str>,
    fast_demosaic: bool,
    max_width: Option<u32>,
    max_height: Option<u32>,
    backend: &mut B,
) -> (r: Result<Vec<u8>, EngineError>)
    ensures
        r is Ok ==> exists|rgb: Seq<u8>, w: u32, h: u32|
            {
                &&& 1 <= w
                &&& 1 <= h
                &&& (match (max_width, max_height) {
                    (Some(mw), Some(mh)) => 1 <= mw && 1 <= mh ==> w <= mw && h <= mh,
                    _ => true,
                })
                &&& rgb.len() == 3 * w * h
                &&& r->Ok_0@ == jpeg_of(rgb, w, h, spec_quality(fast_demosaic))
            },
        r is Err ==> r->Err_0 == EngineError::Decode || r->Err_0 == EngineError::Encode,
{
    let developed = match backend.develop(raw_bytes, fast_demosaic) {
        Ok(b) => b,
        Err(_) => {
            // Whatever the backend reports, a failed development is a
            // decode failure of this render.
            return Err(EngineError::Decode);
        },
    };
    if !developed.check_wf() {
        return Err(EngineError::Decode);
    }
    let (tw, th) = match (max_width, max_height) {
        (Some(mw), Some(mh)) => {
            if 1 <= mw && 1 <= mh {
                fit_dimensions(developed.width, developed.height, mw, mh)
            } else {
                (developed.width, developed.height)
            }
        },
        _ => (developed.width, developed.height),
    };
    let buf = if tw != developed.width || th != developed.height {
        let resized = backend.resize(&developed, tw, th);
        if !resized.check_wf() || resized.width != tw || resized.height != th {
            return Err(EngineError::Decode);
        }
        resized
    } else {
        developed
    };
    let bitmaps = backend.rasterize_masks(adjustments_json, buf.width, buf.height);
    let rgb = backend.shade(&buf, adjustments_json, &bitmaps);
    let px = match (buf.width as usize).checked_mul(buf.height as usize) {
        Some(v) => v,
        None => {
            return Err(EngineError::Encode);
        },
    };
    let n = match px.checked_mul(3) {
        Some(v) => v,
        None => {
            return Err(EngineError::Encode);
        },
    };
    if rgb.len() != n {
        return Err(EngineError::Encode);
    }
    proof {
        assert(3 * (buf.width as int) * (buf.height as int) == ((buf.width as int) * (buf.height as int))
            * 3) by (nonlinear_arith);
    }
    let quality: u8 = if fast_demosaic { 88 } else { 96 };
    match encode_jpeg(&rgb, buf.width, buf.height, quality) {
        Some(j) => {
            proof {
                let w = buf.width;
                let h = buf.height;
                assert(rgb@.len() == 3 * w * h);
                assert(j@ == jpeg_of(rgb@, w, h, spec_quality(fast_demosaic)));
            }
            Ok(j)
        },
        None => Err(EngineError::Encode),
    }
}

/// Renders one preview tier of a session. The decoded linear buffer of
/// the tier is computed once and reused by every later render of the
/// same tier (the slot is write-once); the rasterized mask bitmaps are
/// reused as long as the masks text and the dimensions are unchanged.
/// Session previews always take the fast path, so the JPEG quality is
/// 88. `InvalidHandle` comes back exactly when the lookup fails (for
/// handle 0 in particular), and then nothing changes; a failed
/// development is a decode error, an encoder refusal or misshapen
/// shading an encode error, and no other error comes out.
pub fn render_from_session<B: RenderBackend>(
    store: &mut SessionStore,
    handle: u64,
    adjustments_json: Option<&str>,
    kind: PreviewKind,
    backend: &mut B,
) -> (r: Result<Vec<u8>, EngineError>)
    requires
        old(store).wf(),
    ensures
        final(store).wf(),
        r == Err::<Vec<u8>, EngineError>(EngineError::InvalidHandle)
            <==> !old(store).sessions().contains_key(handle),
        r is Err ==> r->Err_0 == EngineError::InvalidHandle || r->Err_0 == EngineError::Decode
            || r->Err_0 == EngineError::Encode,
        !old(store).sessions().contains_key(handle) ==> final(store).sessions() == old(store).sessions(),
        forall|k: u64| k != handle && old(store).sessions().contains_key(k)
            ==> final(store).sessions().contains_key(k)
                && final(store).sessions()[k] == old(store).sessions()[k],
        old(store).sessions().contains_key(handle) ==> {
            &&& final(store).sessions().contains_key(handle)
            &&& final(store).sessions()[handle].raw_bytes == old(store).sessions()[handle].raw_bytes
            &&& final(store).sessions()[handle].metadata_json == old(store).sessions()[handle].metadata_json
            &&& (old(store).sessions()[handle].linear_slot(kind) is Some
                ==> final(store).sessions()[handle].linear_slot(kind)
                    == old(store).sessions()[handle].linear_slot(kind))
        },
        r is Ok ==> final(store).sessions().contains_key(handle)
            && final(store).sessions()[handle].linear_slot(kind) is Some && exists|rgb: Seq<u8>|
            #![trigger rgb.len()]
            {
                let b = final(store).sessions()[handle].linear_slot(kind)->0;
                &&& rgb.len() == 3 * b.width * b.height
                &&& r->Ok_0@ == jpeg_of(rgb, b.width, b.height, 88u8)
            },
        r is Ok && old(store).sessions()[handle].linear_slot(kind) is None ==> {
            let b = final(store).sessions()[handle].linear_slot(kind)->0;
            &&& 1 <= b.width <= kind.spec_max_dims().0
            &&& 1 <= b.height <= kind.spec_max_dims().1
        },
{
    let have = store.cached_linear(handle, kind).is_some();
    if !have {
        let developed = match store.raw_bytes(handle) {
            None => {
                return Err(EngineError::InvalidHandle);
            },
            Some(raw) => backend.develop(raw, true),
        };
        let buf = match developed {
            Ok(b) => b,
            Err(_) => {
                // Whatever the backend reports, a failed development
                // is a decode failure of this render; `InvalidHandle`
                // is reserved for the lookup above.
                return Err(EngineError::Decode);
            },
        };
        if !buf.check_wf() {
            return Err(EngineError::Decode);
        }
        let (mw, mh) = kind.max_dims();
        let (tw, th) = fit_dimensions(buf.width, buf.height, mw, mh);
        let fitted = if tw != buf.width || th != buf.height {
            let resized = backend.resize(&buf, tw, th);
            if !resized.check_wf() || resized.width != tw || resized.height != th {
                return Err(EngineError::Decode);
            }
            resized
        } else {
            buf
        };
        store.store_linear(handle, kind, fitted);
    }
    let (w, h) = match store.cached_linear(handle, kind) {
        Some(b) => (b.width, b.height),
        None => {
            return Err(EngineError::InvalidHandle);
        },
    };
    let mkey = backend.masks_key(adjustments_json);
    let have_masks = store.cached_masks(handle, kind, &mkey, w, h).is_some();
    if !have_masks {
        let bitmaps = backend.rasterize_masks(adjustments_json, w, h);
        store.store_masks(handle, kind, mkey.clone(), w, h, bitmaps);
    }
    let bufref = match store.cached_linear(handle, kind) {
        Some(b) => b,
        None => {
            return Err(EngineError::InvalidHandle);
        },
    };
    let bitmaps_ref = match store.cached_masks(handle, kind, &mkey, w, h) {
        Some(b) => b,
        None => {
            return Err(EngineError::Encode);
        },
    };
    let rgb = backend.shade(bufref, adjustments_json, bitmaps_ref);
    let px = match (w as usize).checked_mul(h as usize) {
        Some(v) => v,
        None => {
            return Err(EngineError::Encode);
        },
    };
    let n = match px.checked_mul(3) {
        Some(v) => v,
        None => {
            return Err(EngineError::Encode);
        },
    };
    if rgb.len() != n {
        return Err(EngineError::Encode);
    }
    proof {
        assert(3 * (w as int) * (h as int) == ((w as int) * (h as int)) * 3) by (nonlinear_arith);
    }
    match encode_jpeg(&rgb, w, h, 88) {
        Some(j) => {
            proof {
                assert(rgb@.len() == 3 * w * h);
                assert(j@ == jpeg_of(rgb@, w, h, 88u8));
            }
            Ok(j)
        },
        None => Err(EngineError::Encode),
    }
}

} // verus!
