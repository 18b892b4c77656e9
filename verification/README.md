# rusty_viewer

The core of a local image viewer and editor, written in Verus. Every function
in `src/` carries a contract that Verus proves; calls into the `image`,
`base64` and `dirs` crates and a few std functions stand behind small trusted
wrappers whose contracts are stated in their doc comments.

- `src/pixels.rs`: RGBA8 rasters (`Raster`, viewed as a `Picture`) and the
  rotations, flips, crop, inversion, grayscale and resizing the `image` crate
  performs on them.
- `src/image_ops.rs`: bounded crop and resize, and automatic levels with 0.5%
  outlier clipping per channel.
- `src/editor.rs`: size limits, slider settings (single-precision bit
  patterns), the revision history with undo and redo, unexported-change
  tracking, the preview data URL, and export encoding (JPEG composited onto
  white). The history laws are public proof functions there.
- `src/decoding.rs`: decoding image files held in memory, with the
  80-megapixel limit checked on the header and EXIF orientation applied.
- `src/navigation.rs`: supported extensions, file names, and the images of a
  folder in folder order.
- `src/batch.rs`: batch option checks, output names that never collide, the
  per-image pipeline and the running tally.
- `src/settings.rs`: the remembered batch output folder.
- `src/text.rs`: string helpers and the code-point order of text.

`app/` is a command-line front end: file and folder I/O, the temporary-file
save, the batch loop, and the floating-point slider rendering, which the
library does not compute.
