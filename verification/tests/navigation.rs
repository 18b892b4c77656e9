use rusty_viewer::decoding::decode_image;
use rusty_viewer::navigation::{is_supported_image, order_siblings};
use std::io::Write;
use std::path::{Path, PathBuf};

/// The bytes of the file at `path`, read the way the front end reads images.
fn read_bytes(path: &std::path::Path) -> Result<Vec<u8>, String> {
    let mut reader = image::ImageReader::open(path).map_err(|e| e.to_string())?.into_inner();
    let mut bytes = Vec::new();
    std::io::Read::read_to_end(&mut reader, &mut bytes).map_err(|e| e.to_string())?;
    Ok(bytes)
}

fn create(path: &Path, bytes: &[u8]) {
    let dir = path.parent().unwrap();
    let mut temp = tempfile::NamedTempFile::new_in(dir).unwrap();
    temp.write_all(bytes).unwrap();
    temp.persist(path).unwrap();
}

/// The supported images among `entries`, canonicalised, as a folder scan finds them.
fn listed_images(entries: &[PathBuf]) -> Vec<String> {
    let mut files = Vec::new();
    for path in entries {
        if path.is_file() && is_supported_image(&path.to_string_lossy()) {
            files.push(path.canonicalize().unwrap().to_string_lossy().into_owned());
        }
    }
    files
}

#[test]
fn test_is_supported_image() {
    assert!(is_supported_image("test.png"));
    assert!(is_supported_image("test.PNG"));
    assert!(is_supported_image("test.jpeg"));
    assert!(is_supported_image("test.webp"));
    assert!(!is_supported_image("test.txt"));
    assert!(!is_supported_image("test"));
}

#[test]
fn test_get_image_siblings() {
    let dir = tempfile::tempdir().unwrap();
    let file1 = dir.path().join("a.png");
    let file2 = dir.path().join("b.jpg");
    let file3 = dir.path().join("c.txt");
    let file4 = dir.path().join("d.webp");

    create(&file1, b"");
    create(&file2, b"");
    create(&file3, b"");
    create(&file4, b"");

    let current = file2.canonicalize().unwrap().to_string_lossy().into_owned();
    let entries = [file4.clone(), file3.clone(), file2.clone(), file1.clone()];
    let (siblings, index) = order_siblings(listed_images(&entries), current);

    let file1_canon = file1.canonicalize().unwrap().to_string_lossy().into_owned();
    let file2_canon = file2.canonicalize().unwrap().to_string_lossy().into_owned();
    let file4_canon = file4.canonicalize().unwrap().to_string_lossy().into_owned();

    assert_eq!(siblings.len(), 3);
    assert_eq!(siblings[0], file1_canon);
    assert_eq!(siblings[1], file2_canon);
    assert_eq!(siblings[2], file4_canon);
    assert_eq!(index, 1);
}

#[test]
fn extensionless_image_stays_in_folder_navigation() {
    let dir = tempfile::tempdir().unwrap();
    let input = dir.path().join("a.png");
    let other = dir.path().join("no-extension");
    let temp = tempfile::NamedTempFile::new_in(dir.path()).unwrap();
    image::RgbaImage::from_pixel(8, 6, image::Rgba([1, 2, 3, 255]))
        .save_with_format(temp.path(), image::ImageFormat::Png)
        .unwrap();
    temp.persist(&other).unwrap();
    let bytes = read_bytes(&other).unwrap();
    assert!(decode_image(&bytes, &other.to_string_lossy()).is_ok());
    let current = other.canonicalize().unwrap().to_string_lossy().into_owned();
    let (files, index) = order_siblings(listed_images(&[input.clone(), other.clone()]), current.clone());
    assert_eq!(files[index], current);
}

#[test]
fn siblings_sort_case_insensitively_and_drop_duplicates() {
    let files = vec![
        "/p/b.png".to_string(),
        "/p/A.png".to_string(),
        "/p/a.png".to_string(),
        "/p/C.jpg".to_string(),
        "/p/b.png".to_string(),
    ];
    let (list, index) = order_siblings(files, "/p/c.gif".to_string());
    assert_eq!(list, vec!["/p/A.png", "/p/a.png", "/p/b.png", "/p/c.gif", "/p/C.jpg"]);
    assert_eq!(index, 3);
    let (list, index) = order_siblings(vec![], "/x/only.png".to_string());
    assert_eq!(list, vec!["/x/only.png"]);
    assert_eq!(index, 0);
}

#[test]
fn supported_extensions_ignore_case_and_need_a_dot() {
    for name in ["a.JPG", "b.Tif", "c.tiff", "d.gif", "e.bmp", "f.ico", "dir.d/g.png"] {
        assert!(is_supported_image(name), "{name}");
    }
    for name in ["png", ".png", "a.png.txt", "a.pn", "a.", "dir.png/x"] {
        assert!(!is_supported_image(name), "{name}");
    }
}
