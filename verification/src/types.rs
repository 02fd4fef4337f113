use vstd::prelude::*;

verus! {

/// Target resolution tier for a preview render.
#[derive(Clone, Copy, PartialEq, Eq, Structural, Debug)]
pub enum PreviewKind {
    SuperLow,
    Low,
    Preview,
}

impl PreviewKind {
    /// The fixed mapping from a preview tier to the box the rendered
    /// image must fit in.
    pub open spec fn spec_max_dims(self) -> (u32, u32) {
        match self {
            PreviewKind::SuperLow => (64u32, 64u32),
            PreviewKind::Low => (256u32, 256u32),
            PreviewKind::Preview => (1280u32, 720u32),
        }
    }

    pub fn max_dims(self) -> (r: (u32, u32))
        ensures
            r == self.spec_max_dims(),
    {
        match self {
            PreviewKind::SuperLow => (64, 64),
            PreviewKind::Low => (256, 256),
            PreviewKind::Preview => (1280, 720),
        }
    }
}

/// Why a render or session operation failed. A malformed adjustments
/// payload is deliberately not an error: the caller substitutes the
/// neutral payload and the render proceeds.
#[derive(Clone, Copy, PartialEq, Eq, Structural, Debug)]
pub enum EngineError {
    /// The RAW bytes could not be decoded or developed.
    Decode,
    /// The session lookup found nothing for the handle.
    InvalidHandle,
    /// A per-session lock was left in a bad state by the host.
    LockPoisoned,
    /// The JPEG encoder refused the buffer.
    Encode,
}

/// How a sub-mask bitmap combines into the mask it belongs to.
#[derive(Clone, Copy, PartialEq, Eq, Structural, Debug)]
pub enum SubMaskMode {
    Additive,
    Subtractive,
}

} // verus!
