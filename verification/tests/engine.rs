use raw_engine::buffer::LinearBuf;
use raw_engine::geometry::fit_dimensions;
use raw_engine::mask::{
    ai_subject_bitmap, apply_submask_bitmap, box_blur_u8, compose_mask_bitmap, decode_data_url,
    mask_plan, MaskEntry, MaskLayer, MaskSlot,
};
use raw_engine::orient::{apply_orientation, Orientation};
use raw_engine::types::{PreviewKind, SubMaskMode};

use base64::Engine;

fn round_div(a: u32, d: u32) -> u8 {
    ((2 * a + d) / (2 * d)) as u8
}

fn subtractive(d: u8, s: u8) -> u8 {
    round_div(d as u32 * (255 - s as u32), 255)
}

#[test]
fn preview_kind_dimensions_are_fixed() {
    assert_eq!(PreviewKind::SuperLow.max_dims(), (64, 64));
    assert_eq!(PreviewKind::Low.max_dims(), (256, 256));
    assert_eq!(PreviewKind::Preview.max_dims(), (1280, 720));
}

#[test]
fn fit_keeps_images_already_inside_the_box() {
    assert_eq!(fit_dimensions(640, 480, 1280, 720), (640, 480));
    assert_eq!(fit_dimensions(1280, 720, 1280, 720), (1280, 720));
}

#[test]
fn fit_scales_to_the_binding_side() {
    // 4:3 landscape into the preview box: the height binds.
    assert_eq!(fit_dimensions(4000, 3000, 1280, 720), (960, 720));
    // 3:4 portrait into the preview box: the height binds harder.
    assert_eq!(fit_dimensions(3000, 4000, 1280, 720), (540, 720));
    // Square into a square box.
    assert_eq!(fit_dimensions(5000, 5000, 64, 64), (64, 64));
}

#[test]
fn fit_never_collapses_a_side_to_zero() {
    // An extreme panorama would scale the height to zero; it is held at 1.
    assert_eq!(fit_dimensions(10000, 1, 64, 64), (64, 1));
    assert_eq!(fit_dimensions(1, 10000, 64, 64), (1, 64));
}

#[test]
fn additive_submask_keeps_the_larger_value() {
    let mut target = vec![0u8, 100, 200, 255];
    let sub = vec![50u8, 80, 220, 0];
    apply_submask_bitmap(&mut target, &sub, SubMaskMode::Additive);
    assert_eq!(target, vec![50, 100, 220, 255]);
}

#[test]
fn subtractive_submask_scales_by_the_complement() {
    let mut target = vec![200u8, 255, 255, 10];
    let sub = vec![100u8, 255, 0, 255];
    apply_submask_bitmap(&mut target, &sub, SubMaskMode::Subtractive);
    assert_eq!(
        target,
        vec![
            subtractive(200, 100),
            0,
            255,
            0,
        ]
    );
    // The exact value of one blend: 200 * 155 / 255, rounded.
    assert_eq!(subtractive(200, 100), 122);
}

#[test]
fn mismatched_bitmap_lengths_do_not_combine() {
    let mut target = vec![10u8, 20, 30];
    let sub = vec![255u8, 255];
    apply_submask_bitmap(&mut target, &sub, SubMaskMode::Additive);
    assert_eq!(target, vec![10, 20, 30]);
}

#[test]
fn additive_then_subtractive_leaves_the_product() {
    // An additive stamp of value a on an empty base followed by a
    // subtractive stamp of value s must leave a*(1 - s/255) within one
    // level. With a = 255 that is exactly 255 - s.
    for s in [0u8, 1, 64, 127, 128, 200, 254, 255] {
        let mut target = vec![0u8];
        apply_submask_bitmap(&mut target, &vec![255u8], SubMaskMode::Additive);
        apply_submask_bitmap(&mut target, &vec![s], SubMaskMode::Subtractive);
        assert_eq!(target[0], 255 - s);
    }
    for (a, s) in [(200u8, 100u8), (90, 250), (13, 13)] {
        let mut target = vec![0u8];
        apply_submask_bitmap(&mut target, &vec![a], SubMaskMode::Additive);
        apply_submask_bitmap(&mut target, &vec![s], SubMaskMode::Subtractive);
        let exact = a as f64 * (1.0 - s as f64 / 255.0);
        assert!((target[0] as f64 - exact).abs() <= 0.5 + 1e-9);
    }
}

#[test]
fn compose_applies_layers_in_order() {
    let base = vec![0u8, 0, 0];
    let layers = vec![
        MaskLayer { visible: true, mode: SubMaskMode::Additive, bitmap: Some(vec![100u8, 200, 50]) },
        MaskLayer { visible: true, mode: SubMaskMode::Subtractive, bitmap: Some(vec![255u8, 0, 128]) },
    ];
    let out = compose_mask_bitmap(base, &layers);
    assert_eq!(
        out,
        vec![0, 200, subtractive(50, 128)]
    );
}

#[test]
fn invisible_or_empty_layers_change_nothing() {
    let base = vec![7u8, 8, 9];
    let layers = vec![
        MaskLayer { visible: false, mode: SubMaskMode::Additive, bitmap: Some(vec![255u8, 255, 255]) },
        MaskLayer { visible: true, mode: SubMaskMode::Additive, bitmap: None },
    ];
    let out = compose_mask_bitmap(base, &layers);
    assert_eq!(out, vec![7, 8, 9]);
}

#[test]
fn mask_with_no_visible_submasks_has_no_influence() {
    // The brush phase of a mask without brush strokes is all zero; if
    // every other sub-mask is invisible the composed bitmap stays all
    // zero, so the mask's influence is zero everywhere.
    let base = vec![0u8; 16];
    let layers = vec![
        MaskLayer { visible: false, mode: SubMaskMode::Additive, bitmap: Some(vec![255u8; 16]) },
    ];
    let out = compose_mask_bitmap(base, &layers);
    assert_eq!(out, vec![0u8; 16]);
}

#[test]
fn blur_radius_zero_is_identity() {
    let src = vec![3u8, 200, 77, 12];
    assert_eq!(box_blur_u8(&src, 2, 2, 0), src);
}

#[test]
fn blur_of_an_empty_bitmap_is_empty() {
    let src: Vec<u8> = Vec::new();
    assert_eq!(box_blur_u8(&src, 0, 0, 3), src);
}

#[test]
fn blur_averages_with_edge_replication() {
    // One bright pixel in a 3x1 row, radius 1: every window holds the
    // value once (edges replicate), so each output is round(255 / 3).
    let src = vec![0u8, 255, 0];
    assert_eq!(box_blur_u8(&src, 3, 1, 1), vec![85, 85, 85]);
    // A single pixel image blurs to itself at any radius.
    assert_eq!(box_blur_u8(&vec![200u8], 1, 1, 5), vec![200]);
    // A 2x1 step: windows [e,0,255] and [0,255,e] with edge replication.
    assert_eq!(box_blur_u8(&vec![0u8, 255], 2, 1, 1), vec![85, 170]);
}

#[test]
fn blur_is_separable_across_rows_and_columns() {
    // 2x2 with one bright corner, radius 1. Horizontal pass makes each
    // row [round(v/3*?)...]: row0 [170,85]? Work it out: row0 = [255,0]:
    // x0 windows [255,255,0] -> 170, x1 [255,0,0] -> 85.
    // row1 = [0,0] -> [0,0]. Vertical pass on columns of [170,85 / 0,0]:
    // col0 y0: [170,170,0] -> 113, y1: [170,0,0] -> 57;
    // col1 y0: [85,85,0] -> 57, y1: [85,0,0] -> 28.
    let src = vec![255u8, 0, 0, 0];
    assert_eq!(box_blur_u8(&src, 2, 2, 1), vec![113, 57, 57, 28]);
}

fn buf_2x3() -> LinearBuf {
    // Six pixels with distinct channel values.
    let mut data = Vec::new();
    for p in 0..6u32 {
        for c in 0..4u32 {
            data.push(p * 10 + c);
        }
    }
    LinearBuf { width: 2, height: 3, data }
}

fn pixel(buf: &LinearBuf, x: u32, y: u32) -> [u32; 4] {
    let base = ((y * buf.width + x) * 4) as usize;
    [buf.data[base], buf.data[base + 1], buf.data[base + 2], buf.data[base + 3]]
}

#[test]
fn horizontal_flip_mirrors_columns() {
    let b = buf_2x3();
    let f = apply_orientation(&b, Orientation::HorizontalFlip);
    assert_eq!((f.width, f.height), (2, 3));
    for y in 0..3 {
        assert_eq!(pixel(&f, 0, y), pixel(&b, 1, y));
        assert_eq!(pixel(&f, 1, y), pixel(&b, 0, y));
    }
}

#[test]
fn rotate90_turns_clockwise() {
    let b = buf_2x3();
    let f = apply_orientation(&b, Orientation::Rotate90);
    assert_eq!((f.width, f.height), (3, 2));
    // The top-left source pixel lands at the top-right corner.
    assert_eq!(pixel(&f, 2, 0), pixel(&b, 0, 0));
    // The bottom-left source pixel lands at the top-left corner.
    assert_eq!(pixel(&f, 0, 0), pixel(&b, 0, 2));
}

#[test]
fn every_orientation_round_trips() {
    let b = buf_2x3();
    let all = [
        Orientation::Normal,
        Orientation::HorizontalFlip,
        Orientation::Rotate180,
        Orientation::VerticalFlip,
        Orientation::Transpose,
        Orientation::Rotate90,
        Orientation::Transverse,
        Orientation::Rotate270,
    ];
    for o in all {
        let f = apply_orientation(&b, o);
        let g = apply_orientation(&f, o.inverse());
        assert_eq!((g.width, g.height), (b.width, b.height));
        assert_eq!(g.data, b.data);
    }
}

#[test]
fn exif_values_map_to_orientations() {
    assert_eq!(Orientation::from_exif(1), Orientation::Normal);
    assert_eq!(Orientation::from_exif(2), Orientation::HorizontalFlip);
    assert_eq!(Orientation::from_exif(3), Orientation::Rotate180);
    assert_eq!(Orientation::from_exif(4), Orientation::VerticalFlip);
    assert_eq!(Orientation::from_exif(5), Orientation::Transpose);
    assert_eq!(Orientation::from_exif(6), Orientation::Rotate90);
    assert_eq!(Orientation::from_exif(7), Orientation::Transverse);
    assert_eq!(Orientation::from_exif(8), Orientation::Rotate270);
    assert_eq!(Orientation::from_exif(0), Orientation::Normal);
    assert_eq!(Orientation::from_exif(9), Orientation::Normal);
}

#[test]
fn data_url_payload_is_base64_decoded() {
    let r = decode_data_url("data:text/plain;base64,SGVsbG8=").unwrap();
    assert_eq!(r, b"Hello".to_vec());
}

#[test]
fn data_url_without_marker_or_with_bad_payload_fails() {
    assert!(decode_data_url("data:text/plain,Hello").is_none());
    assert!(decode_data_url("").is_none());
    assert!(decode_data_url("data:image/png;base64,!!!").is_none());
}

#[test]
fn ai_subject_bitmap_decodes_and_blurs() {
    let img = image::GrayImage::from_raw(2, 1, vec![0u8, 255]).unwrap();
    let mut png: Vec<u8> = Vec::new();
    img.write_to(&mut std::io::Cursor::new(&mut png), image::ImageFormat::Png).unwrap();
    let b64 = base64::engine::general_purpose::STANDARD.encode(&png);
    let url = format!("data:image/png;base64,{}", b64);
    let plain = ai_subject_bitmap(&url, 2, 1, 0).unwrap();
    assert_eq!(plain, vec![0, 255]);
    let soft = ai_subject_bitmap(&url, 2, 1, 1).unwrap();
    assert_eq!(soft, vec![85, 170]);
    assert!(ai_subject_bitmap("no mask data here", 2, 1, 0).is_none());
}

#[test]
fn ai_subject_bitmap_resamples_to_the_mask_size() {
    // A uniform 1x1 image resampled to 3x2 stays uniform, so the
    // resampling is visible only in the output length.
    let img = image::GrayImage::from_raw(1, 1, vec![200u8]).unwrap();
    let mut png: Vec<u8> = Vec::new();
    img.write_to(&mut std::io::Cursor::new(&mut png), image::ImageFormat::Png).unwrap();
    let b64 = base64::engine::general_purpose::STANDARD.encode(&png);
    let url = format!("data:image/png;base64,{}", b64);
    let r = ai_subject_bitmap(&url, 3, 2, 0).unwrap();
    assert_eq!(r, vec![200u8; 6]);
}

#[test]
fn mask_plan_keeps_visible_full_masks() {
    let entries = vec![
        MaskEntry::Full { visible: true, invert: true, opacity_bits: 77, has_sub_masks: true, adjustments: 1u32 },
        MaskEntry::Full { visible: false, invert: false, opacity_bits: 5, has_sub_masks: true, adjustments: 2u32 },
    ];
    let plan: Vec<MaskSlot<u32>> = mask_plan(entries);
    assert_eq!(plan.len(), 1);
    assert!(plan[0].invert);
    assert!(!plan[0].full_opacity);
    assert_eq!(plan[0].opacity_bits, 77);
    assert!(plan[0].needs_bitmap);
    assert_eq!(plan[0].adjustments, 1);
}

#[test]
fn mask_without_submasks_selects_every_pixel() {
    // A full-form mask whose subMasks array is empty gets no bitmap:
    // it selects every pixel in full, exactly like a legacy mask, so
    // the two forms are equivalent apart from how the opacity is
    // carried.
    let entries = vec![
        MaskEntry::Full { visible: true, invert: false, opacity_bits: 9, has_sub_masks: false, adjustments: 1u32 },
        MaskEntry::Legacy { enabled: true, adjustments: 2u32 },
    ];
    let plan: Vec<MaskSlot<u32>> = mask_plan(entries);
    assert_eq!(plan.len(), 2);
    assert!(!plan[0].needs_bitmap);
    assert!(!plan[0].invert);
    assert!(!plan[1].needs_bitmap);
    assert!(!plan[1].invert);
    assert!(plan[1].full_opacity);
}

#[test]
fn legacy_mask_applies_globally_at_full_opacity() {
    // The legacy flat form (an `enabled` key instead of `subMasks`)
    // becomes a mask with opacity 1, no inversion and no bitmap.
    let entries = vec![
        MaskEntry::Legacy { enabled: true, adjustments: 42u32 },
        MaskEntry::Legacy { enabled: false, adjustments: 43u32 },
    ];
    let plan: Vec<MaskSlot<u32>> = mask_plan(entries);
    assert_eq!(plan.len(), 1);
    assert!(!plan[0].invert);
    assert!(plan[0].full_opacity);
    assert!(!plan[0].needs_bitmap);
    assert_eq!(plan[0].adjustments, 42);
}
