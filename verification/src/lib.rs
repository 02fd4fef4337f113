//! A verified core for a RAW photograph develop-and-edit engine.
//!
//! The library covers the parts of the engine that are exact, discrete
//! computations: the preview-size ladder and box fitting, EXIF orientation
//! normalization, the 8-bit mask bitmap algebra (combination of sub-mask
//! bitmaps, box blur, data-URL decoding), the per-session cache of decoded
//! preview buffers and rasterized masks, and the render driver that ties
//! them together around a floating-point shading backend supplied by the
//! host. Calls into outside crates (JPEG encoding, base64, image decoding)
//! stand behind small trusted wrappers whose contracts name their results.

pub mod ai;
pub mod buffer;
pub mod geometry;
pub mod render;
pub mod orient;
pub mod session;
pub mod mask;
pub mod metadata;
pub mod types;
