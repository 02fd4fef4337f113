//! Stubs for the AI-derived mask generation subsystem. On this build the
//! models are absent; the engine consumes pre-rendered grayscale bitmaps
//! instead (see `mask::ai_subject_bitmap`).

use vstd::prelude::*;

verus! {

/// Placeholder collection of model sessions. All slots are empty on
/// builds without AI support.
#[derive(Default)]
pub struct AiModels {
    pub sam_encoder: (),
    pub sam_decoder: (),
    pub u2netp: (),
    pub sky_seg: (),
    pub clip_model: Option<()>,
    pub clip_tokenizer: Option<()>,
}

/// Cached embeddings for one source image.
pub struct ImageEmbeddings {
    pub path_hash: String,
    pub original_size: (u32, u32),
}

impl Clone for ImageEmbeddings {
    fn clone(&self) -> (r: Self)
        ensures
            r == *self,
    {
        ImageEmbeddings { path_hash: self.path_hash.clone(), original_size: self.original_size }
    }
}

/// Host-side AI state: the shared models plus the embeddings of the
/// image currently being edited.
pub struct AiState {
    pub models: std::sync::Arc<AiModels>,
    pub embeddings: Option<ImageEmbeddings>,
}

/// The AI models cannot be loaded on this build; every request for them
/// fails with a fixed message.
pub fn unsupported() -> (r: Result<std::sync::Arc<AiModels>, String>)
    ensures
        r is Err,
        r->Err_0@ == "AI processing is not supported on Android builds"@,
{
    Err("AI processing is not supported on Android builds".to_owned())
}

} // verus!
