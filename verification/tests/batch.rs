use image::{Rgba, RgbaImage};
use rusty_viewer::batch::BatchRun;
use rusty_viewer::editor::{export_bytes, BatchOptions};
use rusty_viewer::decoding::decode_image;
use rusty_viewer::pixels::Raster;
use std::io::Write;
use std::path::{Path, PathBuf};

fn fixture(path: &Path) {
    RgbaImage::from_fn(8, 6, |x, y| {
        Rgba([(x * 25) as u8, (y * 30) as u8, 110, if x == 0 { 0 } else { 180 }])
    })
    .save(path)
    .unwrap();
}

fn batch_options(files: Vec<PathBuf>, directory: PathBuf) -> BatchOptions {
    BatchOptions {
        files: files.iter().map(|p| p.to_string_lossy().into_owned()).collect(),
        directory: directory.to_string_lossy().into_owned(),
        format: "png".into(),
        resize: Some([4, 4]),
        keep_aspect: true,
        rotation: 0,
        grayscale: false,
        invert: false,
        auto: false,
    }
}

/// Runs a batch the way the desktop front end does: the library decides,
/// this helper reads and writes files.
fn run(options: BatchOptions, mut progress: impl FnMut(usize)) -> (usize, Vec<String>) {
    let dir = PathBuf::from(&options.directory);
    let mut run = BatchRun::start(&options, dir.is_dir()).unwrap();
    for input in &options.files {
        let input_path = PathBuf::from(input);
        let outcome = (|| {
            let stem = input_path.file_stem().ok_or("Invalid input filename.".to_string())?;
            let output = dir.join(run.output_name(&stem.to_string_lossy()));
            if !run.claim(&output.to_string_lossy(), output.exists()) {
                return Err(BatchRun::conflict_message(input));
            }
            let bytes = read_bytes(&input_path)?;
            let image = run.process(decode_image(&bytes, input)?);
            let bytes = export_bytes(&image, &output.to_string_lossy())?;
            let mut temp = tempfile::NamedTempFile::new_in(&dir).map_err(|e| e.to_string())?;
            temp.write_all(&bytes).map_err(|e| e.to_string())?;
            temp.persist_noclobber(&output).map_err(|e| e.to_string())?;
            Ok(())
        })();
        run.record(input, outcome);
        progress(run.result().completed);
    }
    let result = run.finish();
    (result.written, result.errors)
}

/// The bytes of the file at `path`, read the way the front end reads images.
fn read_bytes(path: &std::path::Path) -> Result<Vec<u8>, String> {
    let mut reader = image::ImageReader::open(path).map_err(|e| e.to_string())?.into_inner();
    let mut bytes = Vec::new();
    std::io::Read::read_to_end(&mut reader, &mut bytes).map_err(|e| e.to_string())?;
    Ok(bytes)
}

fn write_file(path: &Path, bytes: &[u8]) {
    let mut temp = tempfile::NamedTempFile::new_in(path.parent().unwrap()).unwrap();
    temp.write_all(bytes).unwrap();
    temp.persist(path).unwrap();
}

#[test]
fn batch_skips_existing_and_duplicate_names_continues_after_bad_inputs() {
    let dir = tempfile::tempdir().unwrap();
    let output = tempfile::tempdir_in(dir.path()).unwrap();
    let output = output.keep();
    let a = dir.path().join("same.png");
    fixture(&a);
    let b = dir.path().join("same.bmp");
    fixture(&b);
    let bad = dir.path().join("bad.png");
    write_file(&bad, b"invalid");
    let last = dir.path().join("photo.edited.png");
    fixture(&last);
    write_file(&output.join("same.png"), b"keep me");
    let mut progress = vec![];
    let (written, errors) = run(batch_options(vec![a, b, bad, last], output.clone()), |c| progress.push(c));
    assert_eq!(written, 1);
    assert_eq!(errors.len(), 3);
    assert_eq!(progress, vec![1, 2, 3, 4]);
    assert_eq!(read_bytes(&output.join("same.png")).unwrap(), b"keep me");
    let converted = image::open(output.join("photo.edited.png")).unwrap();
    assert_eq!((converted.width(), converted.height()), (4, 3));
}

fn options(files: Vec<&str>, format: &str, rotation: u16, resize: Option<[u32; 2]>) -> BatchOptions {
    BatchOptions {
        files: files.into_iter().map(String::from).collect(),
        directory: "/out".into(),
        format: format.into(),
        resize,
        keep_aspect: false,
        rotation,
        grayscale: false,
        invert: false,
        auto: false,
    }
}

#[test]
fn batch_option_checks_in_order() {
    let err = |o: &BatchOptions, exists: bool| BatchRun::start(o, exists).err().unwrap();
    assert_eq!(err(&options(vec![], "tiff", 45, None), false), "Add at least one image.");
    assert_eq!(err(&options(vec!["a"], "gif", 45, None), false), "Choose an existing output folder.");
    assert_eq!(err(&options(vec!["a"], "gif", 45, None), true), "Invalid rotation.");
    assert_eq!(
        err(&options(vec!["a"], "gif", 90, Some([0, 3])), true),
        "Dimensions must be positive and no larger than 80 megapixels."
    );
    assert_eq!(err(&options(vec!["a"], "gif", 270, Some([3, 3])), true), "Unsupported batch format.");
    let run = BatchRun::start(&options(vec!["a", "b"], "jpg", 180, None), true).ok().unwrap();
    assert_eq!(run.output_name("photo"), "photo.jpg");
    assert_eq!(run.result().total, 2);
}

#[test]
fn claims_are_case_insensitive_and_tally_adds_up() {
    let mut run = BatchRun::start(&options(vec!["x", "y", "z"], "png", 0, None), true).ok().unwrap();
    assert!(run.claim("/out/Photo.png", false));
    assert!(!run.claim("/out/photo.PNG", false));
    assert!(!run.claim("/out/new.png", true));
    assert!(!run.claim("/out/new.png", false));
    run.record("x", Ok(()));
    run.record("y", Err("broken".into()));
    run.record("z", Err(BatchRun::conflict_message("z")));
    let r = run.finish();
    assert_eq!((r.completed, r.total, r.written), (3, 3, 1));
    assert_eq!(r.errors, vec!["y: broken", "z: z: output exists or conflicts with another input; skipped"]);
}

#[test]
fn batch_pipeline_applies_steps_in_order() {
    let mut o = options(vec!["a"], "png", 90, Some([2, 3]));
    o.invert = true;
    o.grayscale = true;
    let run = BatchRun::start(&o, true).ok().unwrap();
    let img = Raster::from_raw(2, 3, vec![10; 24]).unwrap();
    let out = run.process(img);
    assert_eq!((out.width(), out.height()), (3, 2));
    // gray of (10, 10, 10) is 10, inverted 245; alpha 10 kept.
    assert_eq!(out.get_pixel(0, 0), [245, 245, 245, 10]);
}
