use image::codecs::png::PngEncoder;
use image::{ExtendedColorType, ImageEncoder, Rgba, RgbaImage};
use rusty_viewer::decoding::decode_image;
use rusty_viewer::editor::export_bytes;
use rusty_viewer::pixels::Raster;

fn fixture_buffer() -> RgbaImage {
    RgbaImage::from_fn(8, 6, |x, y| Rgba([(x * 25) as u8, (y * 30) as u8, 110, if x == 0 { 0 } else { 180 }]))
}

fn fixture() -> Raster {
    Raster::from_raw(8, 6, fixture_buffer().into_raw()).unwrap()
}

/// A PNG of the fixture whose EXIF metadata holds `orientation`.
fn png_with_orientation(orientation: u8) -> Vec<u8> {
    let mut exif = b"MM\x00\x2a\x00\x00\x00\x08\x00\x01\x01\x12\x00\x03\x00\x00\x00\x01\x00".to_vec();
    exif.extend_from_slice(&[orientation, 0, 0, 0, 0, 0, 0]);
    let mut out = Vec::new();
    let mut encoder = PngEncoder::new(&mut out);
    encoder.set_exif_metadata(exif).unwrap();
    encoder.write_image(fixture_buffer().as_raw(), 8, 6, ExtendedColorType::Rgba8).unwrap();
    out
}

/// A BMP header declaring `width` x `height` pixels at 24 bits, without pixel data.
fn bmp_header(width: u32, height: u32) -> Vec<u8> {
    let mut b = b"BM".to_vec();
    b.extend_from_slice(&54u32.to_le_bytes());
    b.extend_from_slice(&[0, 0, 0, 0]);
    b.extend_from_slice(&54u32.to_le_bytes());
    b.extend_from_slice(&40u32.to_le_bytes());
    b.extend_from_slice(&width.to_le_bytes());
    b.extend_from_slice(&height.to_le_bytes());
    b.extend_from_slice(&1u16.to_le_bytes());
    b.extend_from_slice(&24u16.to_le_bytes());
    b.extend_from_slice(&[0; 24]);
    b
}

fn error_of(r: Result<Raster, String>) -> String {
    match r {
        Err(e) => e,
        Ok(img) => panic!("decoded a {} x {} image", img.width(), img.height()),
    }
}

#[test]
fn decodes_what_was_exported() {
    for name in ["a.png", "a.bmp", "a.tiff", "a.webp"] {
        let bytes = export_bytes(&fixture(), name).unwrap();
        let img = decode_image(&bytes, name).unwrap();
        assert_eq!((img.width(), img.height()), (8, 6), "{name}");
        assert_eq!(img.as_bytes(), fixture().as_bytes(), "{name}");
    }
}

#[test]
fn exif_orientation_is_applied() {
    let upright = decode_image(&png_with_orientation(1), "up.png").unwrap();
    assert_eq!(upright.as_bytes(), fixture().as_bytes());
    let turned = decode_image(&png_with_orientation(6), "turned.png").unwrap();
    assert_eq!((turned.width(), turned.height()), (6, 8));
    assert_eq!(turned.as_bytes(), fixture().rotate90().as_bytes());
}

#[test]
fn undecodable_bytes_name_the_file() {
    let e = error_of(decode_image(b"invalid", "/d/bad.png"));
    assert!(e.starts_with("Cannot decode /d/bad.png: "), "{e}");
}

#[test]
fn oversized_header_is_refused_before_decoding() {
    assert_eq!(
        error_of(decode_image(&bmp_header(10_000, 9_000), "big.bmp")),
        "Dimensions must be positive and no larger than 80 megapixels."
    );
    assert!(decode_image(&bmp_header(4, 3), "small.bmp").is_err());
}
