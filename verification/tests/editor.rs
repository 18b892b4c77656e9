use image::{Rgba, RgbaImage};
use rusty_viewer::editor::{
    dimensions, export_bytes, export_format, export_format_for, flatten_onto_white, Adjustments, Editor,
    ExportFormat, ImageKind,
};
use rusty_viewer::decoding::decode_image;
use rusty_viewer::pixels::Raster;
use base64::Engine;
use std::io::Write;
use std::path::Path;

fn fixture_buffer() -> RgbaImage {
    RgbaImage::from_fn(8, 6, |x, y| {
        Rgba([(x * 25) as u8, (y * 30) as u8, 110, if x == 0 { 0 } else { 180 }])
    })
}

fn fixture() -> Raster {
    let b = fixture_buffer();
    Raster::from_raw(8, 6, b.into_raw()).unwrap()
}

fn opened(name: &str) -> Editor {
    let mut editor = Editor::new();
    editor
        .open(fixture(), format!("/tmp/{name}"), &vec![format!("/tmp/{name}")], false)
        .unwrap();
    editor
}

fn bits(brightness: f32, gamma: f32) -> Adjustments {
    Adjustments { brightness: brightness.to_bits(), gamma: gamma.to_bits(), ..Default::default() }
}

/// The bytes of the file at `path`, read the way the front end reads images.
fn read_bytes(path: &std::path::Path) -> Result<Vec<u8>, String> {
    let mut reader = image::ImageReader::open(path).map_err(|e| e.to_string())?.into_inner();
    let mut bytes = Vec::new();
    std::io::Read::read_to_end(&mut reader, &mut bytes).map_err(|e| e.to_string())?;
    Ok(bytes)
}

/// Opens the image file at `path` the way the front end does: read, decode,
/// then hand the image and its folder to the editor.
fn open_file(editor: &mut Editor, path: &Path, discard: bool) -> Result<(), String> {
    editor.may_open(discard)?;
    let bytes = read_bytes(path).map_err(|e| format!("Cannot open {}: {e}", path.display()))?;
    let image = decode_image(&bytes, &path.display().to_string())?;
    let text = path.to_string_lossy().into_owned();
    editor.open(image, text.clone(), &vec![text], discard)
}

fn displayed(editor: &Editor) -> Raster {
    editor.current().unwrap().0.duplicate()
}

#[test]
fn undo_restores_sliders_and_pixels_and_redo_restores_edit() {
    let mut editor = opened("test.png");
    let adjusted = bits(0.2, 1.3);
    editor.adjust(adjusted).unwrap();
    let before = displayed(&editor);
    // What the sliders make of the image, as the front end renders it.
    let mut shown = displayed(&editor);
    shown.invert();
    let baked = shown.rotate90();
    editor.edit("rotate_right", &[], Some(shown)).unwrap();
    let (image, sliders) = editor.current().unwrap();
    assert_eq!(image.as_bytes(), baked.as_bytes());
    assert_eq!(sliders, Adjustments::default());
    assert!(editor.dirty());
    editor.edit("undo", &[], None).unwrap();
    let (image, sliders) = editor.current().unwrap();
    assert_eq!(sliders, adjusted);
    assert_eq!(before.as_bytes(), image.as_bytes());
    editor.edit("redo", &[], None).unwrap();
    let (image, sliders) = editor.current().unwrap();
    assert_eq!((image.width(), image.height()), (6, 8));
    assert_eq!(image.as_bytes(), baked.as_bytes());
    assert_eq!(sliders, Adjustments::default());
}

#[test]
fn failure_preserves_document_and_edits_require_discard() {
    let dir = tempfile::tempdir().unwrap();
    let path = dir.path().join("test.png");
    fixture_buffer().save(&path).unwrap();
    let mut editor = Editor::new();
    open_file(&mut editor, &path, false).unwrap();
    let shown = displayed(&editor);
    editor.edit("invert", &[], Some(shown)).unwrap();
    assert!(open_file(&mut editor, &path, false).is_err());
    assert!(open_file(&mut editor, &dir.path().join("missing.png"), true).is_err());
    assert!(editor.dirty());
    assert_eq!(editor.view(&displayed(&editor), 0).unwrap().name, "test.png");
    let shown = displayed(&editor);
    assert!(editor.edit("resize", &[0, 20], Some(shown)).is_err());
    let shown = displayed(&editor);
    assert!(editor.edit("resize", &[u32::MAX, u32::MAX], Some(shown)).is_err());
    let shown = displayed(&editor);
    assert!(editor.edit("crop", &[99, 0, 1, 1], Some(shown)).is_err());
    assert!(editor.dirty());
    assert_eq!(editor.view(&displayed(&editor), 0).unwrap().width, 8);
}

#[test]
fn jpeg_exports_rgba_with_white_transparency_and_no_source_changes() {
    let dir = tempfile::tempdir().unwrap();
    let input = dir.path().join("test.png");
    fixture_buffer().save(&input).unwrap();
    let before = read_bytes(&input).unwrap();
    let mut editor = opened("test.png");
    let shown = displayed(&editor);
    editor.edit("rotate_right", &[], Some(shown)).unwrap();
    let output = dir.path().join("test.jpg");
    assert_eq!(export_format(&output.to_string_lossy()).unwrap(), ExportFormat::Jpeg);
    let rendered = displayed(&editor);
    let bytes = export_bytes(&rendered, &output.to_string_lossy()).unwrap();
    let mut temp = tempfile::NamedTempFile::new_in(dir.path()).unwrap();
    temp.write_all(&bytes).unwrap();
    temp.persist(&output).unwrap();
    editor.mark_exported().unwrap();
    assert!(!editor.dirty());
    let image = image::open(output).unwrap();
    assert_eq!((image.width(), image.height()), (6, 8));
    let white = image.to_rgb8().get_pixel(3, 0).0;
    assert!(white.iter().all(|c| *c > 220), "{white:?}");
    assert_eq!(read_bytes(&input).unwrap(), before);
    editor.edit("undo", &[], None).unwrap();
    assert!(editor.dirty());
    editor.edit("redo", &[], None).unwrap();
    assert!(!editor.dirty());
}

#[test]
fn failed_export_does_not_clear_dirty_or_replace_existing_file() {
    let dir = tempfile::tempdir().unwrap();
    let mut editor = opened("a.png");
    let shown = displayed(&editor);
    editor.edit("invert", &[], Some(shown)).unwrap();
    let target = dir.path().join("out.gif");
    let mut temp = tempfile::NamedTempFile::new_in(dir.path()).unwrap();
    temp.write_all(b"keep").unwrap();
    temp.persist(&target).unwrap();
    assert!(export_bytes(&displayed(&editor), &target.to_string_lossy()).is_err());
    assert!(editor.dirty());
    assert_eq!(target.metadata().unwrap().len(), 4);
}

#[test]
fn unchanged_adjustments_do_not_create_edits_and_invalid_values_are_rejected() {
    let mut editor = opened("a.png");
    editor.adjust(Adjustments::default()).unwrap();
    let view = editor.view(&displayed(&editor), 0).unwrap();
    assert!(!view.dirty);
    assert!(!view.can_undo);
    assert!(editor.adjust(Adjustments { gamma: f32::NAN.to_bits(), ..Default::default() }).is_err());
    assert!(editor.adjust(Adjustments { red: 5.0f32.to_bits(), ..Default::default() }).is_err());
}

#[test]
fn dimension_limits() {
    assert!(dimensions(1, 1).is_ok());
    assert!(dimensions(8_000, 10_000).is_ok());
    assert!(dimensions(8_000, 10_001).is_err());
    assert!(dimensions(0, 5).is_err());
    assert!(dimensions(5, 0).is_err());
    assert_eq!(
        dimensions(u32::MAX, u32::MAX).unwrap_err(),
        "Dimensions must be positive and no larger than 80 megapixels."
    );
}

#[test]
fn slider_validation_matches_float_ranges() {
    for v in [-1.0f32, -0.5, -0.0, 0.0, 0.25, 1.0] {
        let a = Adjustments { saturation: v.to_bits(), ..Default::default() };
        assert!(a.validate().is_ok(), "{v}");
    }
    for v in [-1.0001f32, 1.0001, f32::INFINITY, f32::NEG_INFINITY, f32::NAN] {
        let a = Adjustments { blue: v.to_bits(), ..Default::default() };
        assert_eq!(a.validate().unwrap_err(), "Adjustment must be between -1 and 1.", "{v}");
    }
    for g in [0.1f32, 1.0, 2.5, 3.0] {
        assert!(bits(0.0, g).validate().is_ok(), "{g}");
    }
    for g in [0.09f32, 3.01, -1.0, f32::NAN, 0.0] {
        assert_eq!(bits(0.0, g).validate().unwrap_err(), "Gamma must be between 0.1 and 3.", "{g}");
    }
    assert!(bits(-0.0, 1.0).same_as(&Adjustments::default()));
    assert!(!bits(0.1, 1.0).same_as(&Adjustments::default()));
}

#[test]
fn negative_zero_slider_is_no_change() {
    let mut editor = opened("z.png");
    editor.adjust(bits(-0.0, 1.0)).unwrap();
    assert!(!editor.dirty());
    assert!(!editor.view(&displayed(&editor), 0).unwrap().can_undo);
}

#[test]
fn view_reports_document_and_base64_preview() {
    let mut editor = Editor::new();
    assert_eq!(editor.view(&fixture(), 0).unwrap_err(), "Open an image first.");
    editor
        .open(fixture(), "/d/x.png".into(), &vec!["/d/x.png".into(), "/d/notes.txt".into(), "/d/w.png".into()], false)
        .unwrap();
    let v = editor.view(&fixture(), 42).unwrap();
    let encoded = v.preview.strip_prefix("data:image/png;base64,").unwrap();
    let png = base64::engine::general_purpose::STANDARD.decode(encoded).unwrap();
    assert!(png.starts_with(b"\x89PNG\r\n\x1a\n"));
    let shown = image::load_from_memory_with_format(&png, image::ImageFormat::Png).unwrap().to_rgba8();
    assert_eq!(shown, fixture_buffer());
    editor.adjust(bits(0.2, 1.0)).unwrap();
    let mut brighter = fixture();
    brighter.invert();
    let other = editor.view(&brighter, 0).unwrap();
    assert_ne!(other.preview, v.preview);
    assert_eq!(v.name, "x.png");
    assert_eq!(v.path.as_deref(), Some("/d/x.png"));
    assert_eq!((v.width, v.height, v.index, v.bytes), (8, 6, 1, 42));
    assert_eq!(v.siblings, vec!["/d/w.png".to_string(), "/d/x.png".to_string()]);
    assert!(!v.dirty && !v.can_undo && !v.can_redo);
}

#[test]
fn paste_starts_dirty_and_refuses_oversized_or_unsaved() {
    let mut editor = Editor::new();
    editor.paste(fixture(), false).unwrap();
    assert!(editor.dirty());
    let v = editor.view(&displayed(&editor), 0).unwrap();
    assert_eq!(v.name, "Clipboard image");
    assert_eq!(v.path, None);
    assert_eq!(editor.paste(fixture(), false).unwrap_err(), "Export or discard your changes first.");
    assert!(editor.paste(fixture(), true).is_ok());
    assert!(editor.paste(Raster::new(0, 3), true).is_err());
    assert!(editor.mark_exported().is_ok());
    assert!(!editor.dirty());
}

#[test]
fn history_keeps_at_most_twenty_revisions() {
    let mut editor = opened("h.png");
    for i in 0..25u32 {
        let v = (i + 1) as f32 / 100.0;
        editor.adjust(bits(v, 1.0)).unwrap();
    }
    let mut undos = 0;
    while editor.view(&displayed(&editor), 0).unwrap().can_undo {
        editor.edit("undo", &[], None).unwrap();
        undos += 1;
    }
    assert_eq!(undos, 20);
    let mut redos = 0;
    while editor.view(&displayed(&editor), 0).unwrap().can_redo {
        editor.edit("redo", &[], None).unwrap();
        redos += 1;
    }
    assert_eq!(redos, 20);
    assert_eq!(editor.current().unwrap().1, bits(0.25, 1.0));
}

#[test]
fn edit_errors_and_open_requirement() {
    let mut editor = Editor::new();
    assert_eq!(editor.edit("invert", &[], None).unwrap_err(), "Open an image first.");
    assert_eq!(editor.edit("undo", &[], None).unwrap_err(), "Open an image first.");
    assert_eq!(editor.adjust(Adjustments::default()).unwrap_err(), "Open an image first.");
    assert_eq!(editor.mark_exported().unwrap_err(), "Open an image first.");
    let mut editor = opened("e.png");
    let shown = displayed(&editor);
    assert_eq!(
        editor.edit("sharpen", &[], Some(shown)).unwrap_err(),
        "Unknown image operation or invalid dimensions."
    );
    let shown = displayed(&editor);
    assert_eq!(editor.edit("crop", &[1, 1, 0, 1], Some(shown)).unwrap_err(), "Choose a crop area inside the image.");
    let shown = displayed(&editor);
    editor.edit("crop", &[6, 4, 100, 100], Some(shown)).unwrap();
    let (img, _) = editor.current().unwrap();
    assert_eq!((img.width(), img.height()), (2, 2));
    let shown = displayed(&editor);
    editor.edit("resize", &[5, 7], Some(shown)).unwrap();
    let (img, _) = editor.current().unwrap();
    assert_eq!((img.width(), img.height()), (5, 7));
    assert!(!editor.may_open(true).is_err());
}

#[test]
fn export_formats() {
    assert_eq!(export_format("a.PNG").unwrap(), ExportFormat::Png);
    assert_eq!(export_format("a.jpeg").unwrap(), ExportFormat::Jpeg);
    assert_eq!(export_format("a.webp").unwrap(), ExportFormat::WebP);
    assert_eq!(export_format("a.bmp").unwrap(), ExportFormat::Bmp);
    assert_eq!(export_format("a.tif").unwrap(), ExportFormat::Tiff);
    assert_eq!(export_format("a.gif").unwrap_err(), "Export supports PNG, JPEG, WebP, BMP and TIFF.");
    assert_eq!(export_format("a").unwrap_err(), "Choose a .png, .jpg, .webp, .bmp or .tiff filename.");
    assert_eq!(export_format_for(Some(ImageKind::Other)).unwrap_err(), "Export supports PNG, JPEG, WebP, BMP and TIFF.");
}

#[test]
fn flatten_composites_onto_white() {
    let img = Raster::from_raw(3, 1, vec![10, 20, 30, 255, 10, 20, 30, 0, 200, 100, 0, 128]).unwrap();
    // (v * a + 255 * (255 - a) + 127) / 255
    assert_eq!(flatten_onto_white(&img), vec![10, 20, 30, 255, 255, 255, 227, 177, 127]);
}

#[test]
fn export_bytes_encode_in_the_named_format() {
    let img = fixture();
    let png = export_bytes(&img, "/out/a.png").unwrap();
    let back = image::load_from_memory_with_format(&png, image::ImageFormat::Png).unwrap();
    assert_eq!(back.to_rgba8(), fixture_buffer());
    let bmp = export_bytes(&img, "b.BMP").unwrap();
    assert!(bmp.starts_with(b"BM"));
    let back = image::load_from_memory_with_format(&bmp, image::ImageFormat::Bmp).unwrap();
    assert_eq!(back.to_rgba8(), fixture_buffer());
    let tiff = export_bytes(&img, "c.tiff").unwrap();
    let back = image::load_from_memory_with_format(&tiff, image::ImageFormat::Tiff).unwrap();
    assert_eq!(back.to_rgba8(), fixture_buffer());
    let webp = export_bytes(&img, "d.webp").unwrap();
    assert!(webp.starts_with(b"RIFF"));
    let back = image::load_from_memory_with_format(&webp, image::ImageFormat::WebP).unwrap();
    assert_eq!(back.to_rgba8(), fixture_buffer());
}

#[test]
fn jpeg_export_is_rgb_over_white() {
    let img = Raster::from_raw(2, 1, vec![0, 0, 0, 0, 0, 0, 0, 255]).unwrap();
    let jpg = export_bytes(&img, "e.jpg").unwrap();
    assert!(jpg.starts_with(&[0xFF, 0xD8]));
    let back = image::load_from_memory_with_format(&jpg, image::ImageFormat::Jpeg).unwrap();
    assert_eq!(back.color(), image::ColorType::Rgb8);
    let rgb = back.to_rgb8();
    assert!(rgb.get_pixel(0, 0).0.iter().all(|c| *c > 200), "{:?}", rgb.get_pixel(0, 0));
    assert!(rgb.get_pixel(1, 0).0.iter().all(|c| *c < 60), "{:?}", rgb.get_pixel(1, 0));
}

#[test]
fn export_bytes_refuse_unknown_names_and_empty_images() {
    assert_eq!(export_bytes(&fixture(), "f.gif").unwrap_err(), "Export supports PNG, JPEG, WebP, BMP and TIFF.");
    assert_eq!(export_bytes(&fixture(), "noext").unwrap_err(), "Choose a .png, .jpg, .webp, .bmp or .tiff filename.");
    assert!(export_bytes(&Raster::new(0, 0), "g.png").is_err());
}

/// Writes `img` to `path` the way the desktop front end does: the library
/// encodes, and a temporary file in the same folder is moved into place.
fn save(img: &Raster, path: &Path, overwrite: bool) -> Result<(), String> {
    let bytes = export_bytes(img, &path.to_string_lossy())?;
    let mut temp = tempfile::NamedTempFile::new_in(path.parent().unwrap()).map_err(|e| e.to_string())?;
    temp.write_all(&bytes).map_err(|e| e.to_string())?;
    if overwrite {
        temp.persist(path).map_err(|e| e.to_string())?;
    } else {
        temp.persist_noclobber(path).map_err(|e| e.to_string())?;
    }
    Ok(())
}

#[test]
fn save_without_overwrite_is_atomic_and_preserves_destination() {
    let dir = tempfile::tempdir().unwrap();
    let input = dir.path().join("a.png");
    fixture_buffer().save(&input).unwrap();
    let before = read_bytes(&input).unwrap();
    assert!(save(&Raster::new(2, 2), &input, false).is_err());
    assert_eq!(read_bytes(&input).unwrap(), before);
}

#[test]
fn save_with_overwrite_replaces_destination() {
    let dir = tempfile::tempdir().unwrap();
    let target = dir.path().join("b.png");
    fixture_buffer().save(&target).unwrap();
    save(&Raster::new(2, 2), &target, true).unwrap();
    let written = image::open(&target).unwrap().into_rgba8();
    assert_eq!(written.dimensions(), (2, 2));
    assert!(written.pixels().all(|p| p.0 == [0, 0, 0, 0]));
}

#[test]
fn open_refuses_empty_images_and_keeps_the_document() {
    let mut editor = opened("keep.png");
    assert_eq!(
        editor.open(Raster::new(0, 5), "/tmp/empty.png".into(), &vec![], true).unwrap_err(),
        "Dimensions must be positive and no larger than 80 megapixels."
    );
    assert_eq!(editor.view(&displayed(&editor), 0).unwrap().name, "keep.png");
}

#[test]
fn open_lists_supported_neighbours_and_names_the_file() {
    let mut editor = Editor::new();
    let entries = vec!["/d/B.PNG".to_string(), "/d/a.jpg".into(), "/d/readme.txt".into(), "/d/c.webp".into()];
    editor.open(fixture(), "/d/scan".into(), &entries, false).unwrap();
    let v = editor.view(&displayed(&editor), 0).unwrap();
    assert_eq!(v.name, "scan");
    assert_eq!(v.siblings, vec!["/d/a.jpg", "/d/B.PNG", "/d/c.webp", "/d/scan"]);
    assert_eq!(v.index, 3);
    assert!(!v.dirty);
}

#[test]
fn undo_and_redo_need_an_image() {
    let mut editor = Editor::new();
    assert_eq!(editor.edit("undo", &[], None).unwrap_err(), "Open an image first.");
    assert_eq!(editor.edit("redo", &[], None).unwrap_err(), "Open an image first.");
}
