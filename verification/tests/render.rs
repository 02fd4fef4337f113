use raw_engine::buffer::LinearBuf;
use raw_engine::render::{render_from_session, render_raw, RenderBackend};
use raw_engine::session::SessionStore;
use raw_engine::types::{EngineError, PreviewKind};

/// A backend that produces gray buffers of a chosen size and counts
/// how often each stage ran.
struct TestBackend {
    develop_size: (u32, u32),
    fail_develop_with: Option<EngineError>,
    shade_len_offset: i64,
    develop_calls: u32,
    resize_calls: u32,
    rasterize_calls: u32,
    shade_calls: u32,
}

impl TestBackend {
    fn new(w: u32, h: u32) -> Self {
        TestBackend {
            develop_size: (w, h),
            fail_develop_with: None,
            shade_len_offset: 0,
            develop_calls: 0,
            resize_calls: 0,
            rasterize_calls: 0,
            shade_calls: 0,
        }
    }
}

fn gray_buf(w: u32, h: u32) -> LinearBuf {
    LinearBuf { width: w, height: h, data: vec![0u32; (w * h * 4) as usize] }
}

impl RenderBackend for TestBackend {
    fn develop(&mut self, _raw_bytes: &Vec<u8>, _fast_demosaic: bool) -> Result<LinearBuf, EngineError> {
        self.develop_calls += 1;
        match self.fail_develop_with {
            Some(e) => Err(e),
            None => Ok(gray_buf(self.develop_size.0, self.develop_size.1)),
        }
    }

    fn resize(&mut self, _buf: &LinearBuf, target_w: u32, target_h: u32) -> LinearBuf {
        self.resize_calls += 1;
        gray_buf(target_w, target_h)
    }

    fn masks_key(&mut self, adjustments_json: Option<&str>) -> String {
        adjustments_json.unwrap_or("").to_string()
    }

    fn rasterize_masks(&mut self, _adjustments_json: Option<&str>, _width: u32, _height: u32) -> Vec<Option<Vec<u8>>> {
        self.rasterize_calls += 1;
        Vec::new()
    }

    fn shade(&mut self, buf: &LinearBuf, _adjustments_json: Option<&str>, _bitmaps: &Vec<Option<Vec<u8>>>) -> Vec<u8> {
        self.shade_calls += 1;
        let n = (buf.width as i64) * (buf.height as i64) * 3 + self.shade_len_offset;
        vec![128u8; n as usize]
    }
}

#[test]
fn render_raw_encodes_a_jpeg_of_the_fitted_size() {
    let mut backend = TestBackend::new(100, 80);
    let bytes = vec![0u8; 4];
    let jpeg = render_raw(&bytes, None, true, Some(64), Some(64), &mut backend).unwrap();
    let decoded = image::load_from_memory(&jpeg).unwrap();
    // 100x80 fitted into 64x64: the width binds, 64 x 51.
    assert_eq!((decoded.width(), decoded.height()), (64, 51));
    assert_eq!(backend.develop_calls, 1);
    assert_eq!(backend.resize_calls, 1);
}

#[test]
fn render_raw_without_a_box_keeps_the_decoded_size() {
    let mut backend = TestBackend::new(10, 7);
    let jpeg = render_raw(&vec![], None, false, None, None, &mut backend).unwrap();
    let decoded = image::load_from_memory(&jpeg).unwrap();
    assert_eq!((decoded.width(), decoded.height()), (10, 7));
    assert_eq!(backend.resize_calls, 0);
}

#[test]
fn render_raw_turns_develop_failure_into_decode() {
    let mut backend = TestBackend::new(8, 8);
    backend.fail_develop_with = Some(EngineError::Decode);
    let r = render_raw(&vec![], None, true, Some(64), Some(64), &mut backend);
    assert_eq!(r, Err(EngineError::Decode));
    // Whatever the backend reports, a failed development is a decode
    // failure; InvalidHandle stays reserved for session lookups.
    backend.fail_develop_with = Some(EngineError::InvalidHandle);
    let r = render_raw(&vec![], None, true, Some(64), Some(64), &mut backend);
    assert_eq!(r, Err(EngineError::Decode));
}

#[test]
fn session_render_reports_develop_failure_as_decode() {
    let mut store = SessionStore::new();
    let h = store.create_session(vec![0u8; 4], None);
    let mut backend = TestBackend::new(8, 8);
    backend.fail_develop_with = Some(EngineError::InvalidHandle);
    let r = render_from_session(&mut store, h, None, PreviewKind::Low, &mut backend);
    assert_eq!(r, Err(EngineError::Decode));
    // The session survives a failed render and can decode later.
    backend.fail_develop_with = None;
    let r = render_from_session(&mut store, h, None, PreviewKind::Low, &mut backend);
    assert!(r.is_ok());
}

#[test]
fn render_raw_rejects_a_misshapen_shade_result() {
    let mut backend = TestBackend::new(8, 8);
    backend.shade_len_offset = 1;
    let r = render_raw(&vec![], None, true, Some(64), Some(64), &mut backend);
    assert_eq!(r, Err(EngineError::Encode));
}

#[test]
fn render_raw_rejects_dimensions_the_encoder_cannot_take() {
    // JPEG caps each side at 65535; an unfitted render of a wider
    // buffer must fail with an encoding error rather than panic.
    let mut backend = TestBackend::new(70000, 1);
    let r = render_raw(&vec![], None, true, None, None, &mut backend);
    assert_eq!(r, Err(EngineError::Encode));
}

#[test]
fn unknown_handles_are_invalid() {
    let mut store = SessionStore::new();
    let mut backend = TestBackend::new(8, 8);
    let r = render_from_session(&mut store, 0, None, PreviewKind::Low, &mut backend);
    assert_eq!(r, Err(EngineError::InvalidHandle));
    let r = render_from_session(&mut store, 5, None, PreviewKind::Low, &mut backend);
    assert_eq!(r, Err(EngineError::InvalidHandle));
    assert_eq!(backend.develop_calls, 0);
}

#[test]
fn handles_start_at_one_and_release_forgets() {
    let mut store = SessionStore::new();
    let h1 = store.create_session(vec![1, 2, 3], None);
    let h2 = store.create_session(vec![4], Some("{\"make\":\"x\"}".to_string()));
    assert_eq!(h1, 1);
    assert_eq!(h2, 2);
    assert_eq!(store.metadata_json(h1), Some(&"{}".to_string()));
    assert_eq!(store.metadata_json(h2), Some(&"{\"make\":\"x\"}".to_string()));
    assert_eq!(store.raw_bytes(h1), Some(&vec![1, 2, 3]));
    store.release_session(h1);
    assert_eq!(store.metadata_json(h1), None);
    assert!(store.metadata_json(h2).is_some());
}

#[test]
fn the_linear_buffer_is_decoded_once_per_tier() {
    let mut store = SessionStore::new();
    let h = store.create_session(vec![9u8; 16], None);
    let mut backend = TestBackend::new(2000, 1000);
    let first = render_from_session(&mut store, h, None, PreviewKind::Low, &mut backend).unwrap();
    let second = render_from_session(&mut store, h, None, PreviewKind::Low, &mut backend).unwrap();
    // The second render of the same tier reuses the cached buffer.
    assert_eq!(backend.develop_calls, 1);
    assert_eq!(first, second);
    let decoded = image::load_from_memory(&first).unwrap();
    // 2000x1000 fitted into 256x256: the width binds, 256 x 128.
    assert_eq!((decoded.width(), decoded.height()), (256, 128));
    // Another tier decodes again at its own size.
    let tiny = render_from_session(&mut store, h, None, PreviewKind::SuperLow, &mut backend).unwrap();
    assert_eq!(backend.develop_calls, 2);
    let decoded = image::load_from_memory(&tiny).unwrap();
    assert_eq!((decoded.width(), decoded.height()), (64, 32));
}

#[test]
fn the_linear_slot_is_write_once() {
    let mut store = SessionStore::new();
    let h = store.create_session(vec![0u8; 4], None);
    store.store_linear(h, PreviewKind::Low, LinearBuf { width: 2, height: 1, data: vec![7u32; 8] });
    store.store_linear(h, PreviewKind::Low, LinearBuf { width: 1, height: 1, data: vec![9u32; 4] });
    let cached = store.cached_linear(h, PreviewKind::Low).unwrap();
    assert_eq!((cached.width, cached.height), (2, 1));
    assert_eq!(cached.data, vec![7u32; 8]);
}

#[test]
fn mask_rasterization_is_cached_by_masks_text_and_size() {
    let mut store = SessionStore::new();
    let h = store.create_session(vec![0u8; 4], None);
    let mut backend = TestBackend::new(100, 100);
    let json_a = "{\"masks\":[{\"subMasks\":[]}]}";
    let json_b = "{\"masks\":[]}";
    render_from_session(&mut store, h, Some(json_a), PreviewKind::Low, &mut backend).unwrap();
    render_from_session(&mut store, h, Some(json_a), PreviewKind::Low, &mut backend).unwrap();
    assert_eq!(backend.rasterize_calls, 1);
    // A different masks text replaces the cache slot.
    render_from_session(&mut store, h, Some(json_b), PreviewKind::Low, &mut backend).unwrap();
    assert_eq!(backend.rasterize_calls, 2);
    // And coming back to the first text rasterizes again.
    render_from_session(&mut store, h, Some(json_a), PreviewKind::Low, &mut backend).unwrap();
    assert_eq!(backend.rasterize_calls, 3);
}

#[test]
fn stored_masks_are_returned_only_for_matching_keys() {
    let mut store = SessionStore::new();
    let h = store.create_session(vec![0u8; 4], None);
    store.store_masks(h, PreviewKind::Preview, "key".to_string(), 10, 5, vec![Some(vec![1u8, 2])]);
    assert!(store.cached_masks(h, PreviewKind::Preview, &"key".to_string(), 10, 5).is_some());
    assert!(store.cached_masks(h, PreviewKind::Preview, &"other".to_string(), 10, 5).is_none());
    assert!(store.cached_masks(h, PreviewKind::Preview, &"key".to_string(), 10, 6).is_none());
    assert!(store.cached_masks(h, PreviewKind::SuperLow, &"key".to_string(), 10, 5).is_none());
}

#[test]
fn metadata_serializes_with_sorted_keys_and_escaping() {
    let f = raw_engine::metadata::MetadataFields {
        make: "Canon".to_string(),
        model: "EOS \"5D\"".to_string(),
        lens: String::new(),
        iso: "100".to_string(),
        exposure_time: "1/250".to_string(),
        f_number: "2.8".to_string(),
        focal_length: "50".to_string(),
        date_time_original: "2020:01:01 00:00:00".to_string(),
    };
    let s = raw_engine::metadata::metadata_json(&f);
    assert_eq!(
        s,
        "{\"dateTimeOriginal\":\"2020:01:01 00:00:00\",\"exposureTime\":\"1/250\",\
         \"fNumber\":\"2.8\",\"focalLength\":\"50\",\"iso\":\"100\",\"lens\":\"\",\
         \"make\":\"Canon\",\"model\":\"EOS \\\"5D\\\"\"}"
    );
    // What comes out is well-formed JSON holding the same values.
    let v: serde_json::Value = serde_json::from_str(&s).unwrap();
    assert_eq!(v["model"], "EOS \"5D\"");
    assert_eq!(v["iso"], "100");
}

#[test]
fn ai_models_are_not_available() {
    let r = raw_engine::ai::unsupported();
    assert!(r.is_err());
    assert_eq!(r.err().unwrap(), "AI processing is not supported on Android builds");
}
