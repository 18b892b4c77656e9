use image::{ImageBuffer, Rgba, RgbaImage};
use rusty_viewer::image_ops::{auto_adjust, crop_image, resize_image};
use rusty_viewer::pixels::Raster;

fn raster(buffer: RgbaImage) -> Raster {
    let (w, h) = buffer.dimensions();
    Raster::from_raw(w, h, buffer.into_raw()).unwrap()
}

#[test]
fn test_crop_image() {
    let buffer = ImageBuffer::from_fn(4, 4, |x, y| Rgba([x as u8, y as u8, 0, 255]));
    let img = raster(buffer);
    let cropped = crop_image(&img, 1, 1, 2, 2);
    assert_eq!(cropped.width(), 2);
    assert_eq!(cropped.height(), 2);

    let p = cropped.get_pixel(0, 0);
    assert_eq!(p[0], 1);
    assert_eq!(p[1], 1);
}

#[test]
fn test_auto_adjust_stretches_low_contrast_image_with_outlier_pixels() {
    let mut buffer = ImageBuffer::from_fn(10, 10, |x, _y| {
        let v = 100 + (x as u8 * 4);
        Rgba([v, v, v, 255])
    });
    buffer.put_pixel(0, 0, Rgba([0, 0, 0, 255]));
    buffer.put_pixel(9, 9, Rgba([255, 255, 255, 255]));
    let img = raster(buffer);

    let adjusted = auto_adjust(&img);

    let low_end = adjusted.get_pixel(1, 3)[0];
    let high_end = adjusted.get_pixel(8, 3)[0];
    assert!(
        low_end < 50,
        "expected low-end pixel to be stretched toward black, got {}",
        low_end
    );
    assert!(
        high_end > 200,
        "expected high-end pixel to be stretched toward white, got {}",
        high_end
    );
}

#[test]
fn test_auto_adjust_leaves_full_range_image_reasonable() {
    let buffer = ImageBuffer::from_fn(256, 1, |x, _y| Rgba([x as u8, x as u8, x as u8, 255]));
    let img = raster(buffer);
    let adjusted = auto_adjust(&img);
    assert_eq!(adjusted.width(), 256);
    assert_eq!(adjusted.height(), 1);
}

#[test]
fn crop_outside_image_never_panics_or_underflows() {
    let image = Raster::new(4, 4);
    for (x, y) in [(4, 0), (0, 4), (u32::MAX, u32::MAX)] {
        let out = crop_image(&image, x, y, 2, 2);
        assert_eq!(out.as_bytes(), image.as_bytes());
    }
    let cropped = crop_image(&image, 3, 3, u32::MAX, u32::MAX);
    assert_eq!((cropped.width(), cropped.height()), (1, 1));
}

#[test]
fn auto_adjust_exact_values_and_alpha() {
    // 200 visible pixels: clip = 1. Values 10 (x100) and 20 (x100); one transparent pixel.
    let buffer = ImageBuffer::from_fn(201, 1, |x, _| {
        if x == 200 {
            Rgba([250, 250, 250, 0])
        } else if x < 100 {
            Rgba([10, 10, 10, 77])
        } else {
            Rgba([20, 20, 20, 77])
        }
    });
    let out = auto_adjust(&raster(buffer));
    assert_eq!(out.get_pixel(0, 0), [0, 0, 0, 77]);
    assert_eq!(out.get_pixel(150, 0), [255, 255, 255, 77]);
    // Outside the bounds clamps to white, alpha kept.
    assert_eq!(out.get_pixel(200, 0), [255, 255, 255, 0]);
}

#[test]
fn auto_adjust_keeps_transparent_and_solid_images() {
    let clear = raster(ImageBuffer::from_pixel(3, 2, Rgba([9, 8, 7, 0])));
    assert_eq!(auto_adjust(&clear).as_bytes(), clear.as_bytes());
    let solid = raster(ImageBuffer::from_pixel(3, 2, Rgba([90, 80, 70, 255])));
    assert_eq!(auto_adjust(&solid).as_bytes(), solid.as_bytes());
}

#[test]
fn rotations_flips_and_inversion_move_pixels() {
    let img = raster(ImageBuffer::from_fn(3, 2, |x, y| Rgba([x as u8, y as u8, 7, 200])));
    let r = img.rotate90();
    assert_eq!((r.width(), r.height()), (2, 3));
    // (x, y) of the result is (y, height - 1 - x) of the source.
    assert_eq!(r.get_pixel(0, 2), [2, 1, 7, 200]);
    assert_eq!(r.get_pixel(1, 0), [0, 0, 7, 200]);
    let back = r.rotate270();
    assert_eq!(back.as_bytes(), img.as_bytes());
    assert_eq!(img.rotate180().rotate180().as_bytes(), img.as_bytes());
    assert_eq!(img.fliph().get_pixel(0, 1), [2, 1, 7, 200]);
    assert_eq!(img.flipv().get_pixel(0, 0), [0, 1, 7, 200]);
    let mut inv = img.duplicate();
    inv.invert();
    assert_eq!(inv.get_pixel(1, 1), [254, 254, 248, 200]);
}

#[test]
fn grayscale_uses_integer_luma_and_keeps_alpha() {
    let img = raster(ImageBuffer::from_pixel(1, 1, Rgba([255, 0, 0, 9])));
    // (2126 * 255) / 10000 = 54
    assert_eq!(img.grayscale().get_pixel(0, 0), [54, 54, 54, 9]);
    let img = raster(ImageBuffer::from_pixel(1, 1, Rgba([10, 200, 30, 255])));
    // (2126 * 10 + 7152 * 200 + 722 * 30) / 10000 = 147
    assert_eq!(img.grayscale().get_pixel(0, 0), [147, 147, 147, 255]);
}

#[test]
fn resize_keeps_requested_size_and_zero_means_unchanged() {
    let img = raster(ImageBuffer::from_pixel(8, 6, Rgba([1, 2, 3, 4])));
    let out = resize_image(&img, 4, 5);
    assert_eq!((out.width(), out.height()), (4, 5));
    assert_eq!(out.as_bytes().len(), 4 * 5 * 4);
    assert_eq!(resize_image(&img, 0, 5).as_bytes(), img.as_bytes());
    assert_eq!(resize_image(&img, 8, 6).as_bytes(), img.as_bytes());
    let fit = img.resize(4, 4);
    assert_eq!((fit.width(), fit.height()), (4, 3));
}

#[test]
fn from_raw_requires_exact_samples() {
    assert!(Raster::from_raw(2, 2, vec![0; 16]).is_some());
    assert!(Raster::from_raw(2, 2, vec![0; 15]).is_none());
    assert!(Raster::from_raw(2, 2, vec![0; 17]).is_none());
}

#[test]
fn resizing_keeps_flat_colours() {
    let img = raster(ImageBuffer::from_pixel(8, 6, Rgba([1, 2, 3, 4])));
    for (w, h) in [(4, 5), (16, 12), (1, 1), (3, 17)] {
        let out = resize_image(&img, w, h);
        assert!(out.as_bytes().chunks(4).all(|p| p == [1, 2, 3, 4]), "{w}x{h}");
    }
    let fit = img.resize(100, 7);
    assert_eq!((fit.width(), fit.height()), (9, 7));
    assert!(fit.as_bytes().chunks(4).all(|p| p == [1, 2, 3, 4]));
}

#[test]
fn resizing_keeps_opaque_alpha_of_a_varied_image() {
    let img = raster(ImageBuffer::from_fn(9, 7, |x, y| Rgba([(x * 20) as u8, (y * 30) as u8, 200, 255])));
    let out = resize_image(&img, 5, 11);
    assert!(out.as_bytes().chunks(4).all(|p| p[2] == 200 && p[3] == 255));
    assert_ne!(out.get_pixel(0, 0)[0], out.get_pixel(4, 0)[0]);
}

#[test]
fn fitting_fills_one_bound_and_keeps_proportions() {
    let img = raster(ImageBuffer::from_pixel(300, 100, Rgba([9, 9, 9, 255])));
    let fit = img.resize(60, 60);
    assert_eq!((fit.width(), fit.height()), (60, 20));
    let tall = raster(ImageBuffer::from_pixel(10, 40, Rgba([9, 9, 9, 255])));
    let fit = tall.resize(100, 20);
    assert_eq!((fit.width(), fit.height()), (5, 20));
}

#[test]
fn fitting_a_thin_strip_keeps_one_pixel() {
    let strip = raster(ImageBuffer::from_pixel(100, 1, Rgba([5, 6, 7, 8])));
    let fit = strip.resize(10, 10);
    assert_eq!((fit.width(), fit.height()), (10, 1));
}

#[test]
fn auto_levels_never_reverses_values() {
    let img = raster(ImageBuffer::from_fn(16, 16, |x, y| {
        let v = (x * 7 + y * 3) as u8 + 90;
        Rgba([v, 255 - v, v / 2, 255])
    }));
    let out = auto_adjust(&img);
    let (a, b) = (img.as_bytes(), out.as_bytes());
    for j in 0..256 {
        for k in 0..256 {
            for c in 0..3 {
                if a[4 * j + c] <= a[4 * k + c] {
                    assert!(b[4 * j + c] <= b[4 * k + c]);
                }
            }
        }
    }
}
