//! Decoding image files read into memory: the size limit is checked on the
//! header before any pixel is decoded, and EXIF orientation is applied.
use vstd::prelude::*;
use crate::editor::{dimensions, dimensions_ok};
use crate::pixels::{area, Picture, Raster};
use crate::text::joined;

verus! {

/// The size that the header of the image file `bytes` declares, as reported by
/// the decoder that `image::ImageReader` picks by the file's content; `None`
/// when no decoder accepts the bytes.
pub uninterp spec fn header_size(bytes: Seq<u8>) -> Option<(u32, u32)>;

/// The image that `image::DynamicImage::from_decoder` decodes from `bytes`,
/// turned and mirrored as its EXIF orientation says, as width, height and
/// RGBA8 samples; `None` when decoding fails.
pub uninterp spec fn decoded_oriented(bytes: Seq<u8>) -> Option<(u32, u32, Seq<u8>)>;

/// `image::ImageReader::with_guessed_format`, `into_decoder` and
/// `ImageDecoder::dimensions` on bytes in memory; errors become their messages
/// (not stated).
#[verifier::external_body]
fn read_header(bytes: &[u8]) -> (r: Result<(u32, u32), String>)
    ensures
        match header_size(bytes@) {
            Some(size) => r matches Ok(s) && s == size,
            None => r is Err,
        },
{
    let reader = image::ImageReader::new(std::io::Cursor::new(bytes)).with_guessed_format().map_err(|e| e.to_string())?;
    let decoder = reader.into_decoder().map_err(|e| e.to_string())?;
    Ok(image::ImageDecoder::dimensions(&decoder))
}

/// `image::ImageDecoder::orientation`, `image::DynamicImage::from_decoder`,
/// `apply_orientation` and `into_rgba8` on bytes in memory; errors become their
/// messages (not stated). The decoded image has the size of the header, its
/// sides swapped by a quarter turn, and its samples fill it.
#[verifier::external_body]
fn decode_oriented(bytes: &[u8]) -> (r: Result<(u32, u32, Vec<u8>), String>)
    ensures
        match decoded_oriented(bytes@) {
            Some((w, h, px)) => r matches Ok((a, b, v)) && a == w && b == h && v@ == px,
            None => r is Err,
        },
        r matches Ok((w, h, v)) ==> v@.len() == area(w, h) * 4 && (header_size(bytes@) matches Some((hw, hh))
            && ((w == hw && h == hh) || (w == hh && h == hw))),
{
    let reader = image::ImageReader::new(std::io::Cursor::new(bytes)).with_guessed_format().map_err(|e| e.to_string())?;
    let mut decoder = reader.into_decoder().map_err(|e| e.to_string())?;
    let orientation = image::ImageDecoder::orientation(&mut decoder).map_err(|e| e.to_string())?;
    let mut image = image::DynamicImage::from_decoder(decoder).map_err(|e| e.to_string())?;
    image.apply_orientation(orientation);
    let rgba = image.into_rgba8();
    Ok((rgba.width(), rgba.height(), rgba.into_raw()))
}

/// Decodes the image file `bytes`, read from `path`: its header must declare a
/// size that is positive and at most 80 megapixels, checked before the pixels
/// are decoded; the image is turned as its EXIF orientation says.
pub fn decode_image(bytes: &[u8], path: &str) -> (r: Result<Raster, String>)
    ensures
        match header_size(bytes@) {
            None => r matches Err(e) && ("Cannot decode "@ + path@ + ": "@).is_prefix_of(e@),
            Some((w, h)) => if !dimensions_ok(w, h) {
                r matches Err(e) && e@ == "Dimensions must be positive and no larger than 80 megapixels."@
            } else {
                match decoded_oriented(bytes@) {
                    Some((dw, dh, px)) => r matches Ok(img) && img@ == (Picture { width: dw, height: dh, pixels: px }),
                    None => r is Err,
                }
            },
        },
        r matches Ok(img) ==> dimensions_ok(img@.width, img@.height),
{
    let (w, h) = match read_header(bytes) {
        Ok(size) => size,
        Err(e) => {
            let prefix = joined(joined("Cannot decode ", path).as_str(), ": ");
            let msg = joined(prefix.as_str(), e.as_str());
            assert(prefix@.is_prefix_of(msg@)) by {
                assert(msg@.subrange(0, prefix@.len() as int) =~= prefix@);
            }
            return Err(msg);
        },
    };
    dimensions(w, h)?;
    let (dw, dh, px) = decode_oriented(bytes)?;
    assert(dw as int * dh as int == w as int * h as int) by (nonlinear_arith)
        requires
            (dw == w && dh == h) || (dw == h && dh == w),
    ;
    match Raster::from_raw(dw, dh, px) {
        Some(img) => Ok(img),
        None => Err(joined("Cannot decode ", path)),
    }
}

} // verus!
