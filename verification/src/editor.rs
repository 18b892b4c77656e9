//! Image documents: size limits, slider settings, revision history with undo
//! and redo, unexported-change tracking and export formats.
use vstd::prelude::*;
use std::sync::Arc;
use base64::Engine;
use crate::image_ops::{auto_adjust, crop_image, crop_region, is_auto_adjusted, resize_image};
use crate::pixels::{
    area, chan, is_cut_out, is_flipped_horizontally, keeps_flat_channels, sample, is_flipped_vertically, is_grayscaled, is_inverted,
    is_rotated180, is_rotated270, is_rotated90, well_sized, Picture, Raster,
};
use crate::navigation::{file_name_of, image_siblings, lists_folder, path_file_name};
use crate::text::{copy_strings, fails_with, joined, owned, same_text, texts};
pub use crate::batch::{BatchOptions, BatchResult};

verus! {

/// Largest number of pixels an image or a requested resize may have.
pub const MAX_PIXELS: u64 = 80_000_000;

/// Byte budget for the pixels kept in undo history.
pub const HISTORY_BYTES: usize = 268_435_456;

/// Most revisions kept in undo history.
pub const HISTORY_REVISIONS: usize = 20;

/// Whether `width` x `height` is an acceptable image size.
pub open spec fn dimensions_ok(width: u32, height: u32) -> bool {
    width > 0 && height > 0 && width as int * height as int <= MAX_PIXELS
}

/// Accepts sizes that are positive and at most 80 megapixels.
pub fn dimensions(width: u32, height: u32) -> (r: Result<(), String>)
    ensures
        r is Ok <==> dimensions_ok(width, height),
        r matches Err(e) ==> e@ == "Dimensions must be positive and no larger than 80 megapixels."@,
{
    assert((width as u64) * (height as u64) <= u64::MAX) by (nonlinear_arith)
        requires
            width <= u32::MAX,
            height <= u32::MAX,
    ;
    if width == 0 || height == 0 || (width as u64) * (height as u64) > MAX_PIXELS {
        return Err(owned("Dimensions must be positive and no larger than 80 megapixels."));
    }
    Ok(())
}

// ---------------------------------------------------------------------------
// Slider settings
// ---------------------------------------------------------------------------

/// The bit pattern of the single-precision value 1.0.
pub const ONE_BITS: u32 = 0x3F80_0000;

/// The slider settings of a revision. Each field holds the IEEE-754
/// single-precision bit pattern of the slider's value.
#[derive(Clone, Copy, Debug, PartialEq, Eq, Structural)]
pub struct Adjustments {
    pub brightness: u32,
    pub contrast: u32,
    pub saturation: u32,
    pub gamma: u32,
    pub red: u32,
    pub green: u32,
    pub blue: u32,
}

/// The settings that change nothing: all sliders at 0, gamma at 1.
pub open spec fn neutral() -> Adjustments {
    Adjustments {
        brightness: 0,
        contrast: 0,
        saturation: 0,
        gamma: ONE_BITS,
        red: 0,
        green: 0,
        blue: 0,
    }
}

/// The bits of a finite single-precision value in -1.0 ..= 1.0.
pub open spec fn unit_range(bits: u32) -> bool {
    bits <= 0x3F80_0000 || (0x8000_0000 <= bits && bits <= 0xBF80_0000)
}

/// The bits of a finite single-precision value in 0.1 ..= 3.0 (0.1 as the
/// nearest single-precision value).
pub open spec fn gamma_range(bits: u32) -> bool {
    0x3DCC_CCCD <= bits && bits <= 0x4040_0000
}

/// The bits of a NaN.
pub open spec fn is_nan_bits(bits: u32) -> bool {
    bits % 0x8000_0000 > 0x7F80_0000
}

/// Single-precision equality on bit patterns: no NaN equals anything, and the
/// two zeros are equal.
pub open spec fn same_value(a: u32, b: u32) -> bool {
    !is_nan_bits(a) && !is_nan_bits(b) && (a == b || (a % 0x8000_0000 == 0 && b % 0x8000_0000 == 0))
}

/// Whether two settings compare equal slider by slider.
pub open spec fn same_settings(a: Adjustments, b: Adjustments) -> bool {
    &&& same_value(a.brightness, b.brightness)
    &&& same_value(a.contrast, b.contrast)
    &&& same_value(a.saturation, b.saturation)
    &&& same_value(a.gamma, b.gamma)
    &&& same_value(a.red, b.red)
    &&& same_value(a.green, b.green)
    &&& same_value(a.blue, b.blue)
}

/// Settings that `validate` accepts.
pub open spec fn settings_valid(a: Adjustments) -> bool {
    sliders_in_range(a) && gamma_range(a.gamma)
}

/// The sliders other than gamma are within -1 ..= 1.
pub open spec fn sliders_in_range(a: Adjustments) -> bool {
    &&& unit_range(a.brightness)
    &&& unit_range(a.contrast)
    &&& unit_range(a.saturation)
    &&& unit_range(a.red)
    &&& unit_range(a.green)
    &&& unit_range(a.blue)
}

fn value_eq(a: u32, b: u32) -> (r: bool)
    ensures
        r == same_value(a, b),
{
    a % 0x8000_0000 <= 0x7F80_0000 && b % 0x8000_0000 <= 0x7F80_0000 && (a == b || (a % 0x8000_0000
        == 0 && b % 0x8000_0000 == 0))
}

fn in_unit_range(bits: u32) -> (r: bool)
    ensures
        r == unit_range(bits),
{
    bits <= 0x3F80_0000 || (0x8000_0000 <= bits && bits <= 0xBF80_0000)
}

impl Default for Adjustments {
    fn default() -> (r: Adjustments)
        ensures
            r == neutral(),
    {
        Adjustments {
            brightness: 0,
            contrast: 0,
            saturation: 0,
            gamma: ONE_BITS,
            red: 0,
            green: 0,
            blue: 0,
        }
    }
}

impl Adjustments {
    /// Rejects sliders outside -1 ..= 1, then a gamma outside 0.1 ..= 3.
    pub fn validate(&self) -> (r: Result<(), String>)
        ensures
            !sliders_in_range(*self) ==> fails_with(r, "Adjustment must be between -1 and 1."@),
            sliders_in_range(*self) && !gamma_range(self.gamma) ==> fails_with(
                r,
                "Gamma must be between 0.1 and 3."@,
            ),
            r is Ok <==> sliders_in_range(*self) && gamma_range(self.gamma),
    {
        if !(in_unit_range(self.brightness) && in_unit_range(self.contrast) && in_unit_range(
            self.saturation,
        ) && in_unit_range(self.red) && in_unit_range(self.green) && in_unit_range(self.blue)) {
            return Err(owned("Adjustment must be between -1 and 1."));
        }
        if !(0x3DCC_CCCD <= self.gamma && self.gamma <= 0x4040_0000) {
            return Err(owned("Gamma must be between 0.1 and 3."));
        }
        Ok(())
    }

    /// Whether every slider of `self` equals the one of `other`.
    pub fn same_as(&self, other: &Adjustments) -> (r: bool)
        ensures
            r == same_settings(*self, *other),
    {
        value_eq(self.brightness, other.brightness) && value_eq(self.contrast, other.contrast)
            && value_eq(self.saturation, other.saturation) && value_eq(self.gamma, other.gamma)
            && value_eq(self.red, other.red) && value_eq(self.green, other.green) && value_eq(
            self.blue,
            other.blue,
        )
    }
}

// ---------------------------------------------------------------------------
// Laws of the revision history
// ---------------------------------------------------------------------------

/// Undo right after an edit or a slider change restores exactly the image and
/// slider settings that were current before it, with the same file and folder.
pub proof fn law_undo_restores_previous(s: DocState, image: Picture, adjustments: Adjustments)
    requires
        doc_wf(s),
        s.current is Some,
    ensures
        undone(committed(s, image, adjustments)).current == s.current,
        undone(committed(s, image, adjustments)).path == s.path,
        undone(committed(s, image, adjustments)).siblings == s.siblings,
        undone(committed(s, image, adjustments)).index == s.index,
{
    lemma_trimmed(s.undo.push(s.current.unwrap()));
}

/// Redo right after undo gives back the document as it was before the undo.
pub proof fn law_redo_reverts_undo(s: DocState)
    requires
        s.undo.len() > 0,
        s.current is Some,
    ensures
        redone(undone(s)) == s,
{
    assert(undone(s).redo.drop_last() =~= s.redo);
    assert(undone(s).undo.push(undone(s).current.unwrap()) =~= s.undo);
}

/// Undo right after redo gives back the document as it was before the redo.
pub proof fn law_undo_reverts_redo(s: DocState)
    requires
        s.redo.len() > 0,
        s.current is Some,
    ensures
        undone(redone(s)) == s,
{
    assert(redone(s).undo.drop_last() =~= s.undo);
    assert(redone(s).redo.push(redone(s).current.unwrap()) =~= s.redo);
}

/// After an edit the undo history keeps the revision it replaced, holds at
/// most 20 revisions, and stays within the byte budget unless only that one
/// revision remains; redo history is empty.
pub proof fn law_history_bounded(s: DocState, image: Picture, adjustments: Adjustments)
    requires
        s.current is Some,
    ensures
        committed(s, image, adjustments).undo.len() >= 1,
        committed(s, image, adjustments).undo.len() <= HISTORY_REVISIONS,
        committed(s, image, adjustments).undo.last() == s.current.unwrap(),
        committed(s, image, adjustments).undo.len() == 1 || history_bytes(
            committed(s, image, adjustments).undo,
        ) <= HISTORY_BYTES,
        committed(s, image, adjustments).redo.len() == 0,
{
    let u = s.undo.push(s.current.unwrap());
    lemma_trimmed(u);
    let t = trimmed(u);
    assert(t.last() == u[u.len() - 1]);
}

/// Every edit, undo, redo, export and replacement keeps revision numbers in
/// order and the histories within 20 revisions.
pub proof fn law_history_order_kept(s: DocState, image: Picture, adjustments: Adjustments, path: Option<Seq<char>>)
    requires
        doc_wf(s),
        s.next_id < u64::MAX,
    ensures
        s.current is Some && settings_valid(adjustments) ==> doc_wf(committed(s, image, adjustments)),
        doc_wf(undone(s)),
        doc_wf(redone(s)),
        s.current is Some ==> doc_wf(exported(s)),
        doc_wf(replaced(s, image, path)),
{
    if s.current is Some {
        let u = s.undo.push(s.current.unwrap());
        lemma_trimmed(u);
        let t = trimmed(u);
        let k = u.len() - t.len();
        let id = (s.next_id + 1) as u64;
        assert forall|i: int, j: int| 0 <= i < j < t.len() implies (#[trigger] t[i]).id < (#[trigger] t[j]).id by {
            assert(t[i] == u[k + i]);
            assert(t[j] == u[k + j]);
        }
        assert forall|i: int| 0 <= i < t.len() implies 0 < (#[trigger] t[i]).id < id by {
            assert(t[i] == u[k + i]);
        }
    }
}

/// A new revision, from a pixel edit or a changed slider setting, is always an
/// unexported change.
pub proof fn law_new_revision_dirty(s: DocState, image: Picture, adjustments: Adjustments)
    requires
        doc_wf(s),
        s.current is Some,
        s.next_id < u64::MAX,
    ensures
        is_dirty(committed(s, image, adjustments)),
{
}

/// While the kept revisions stay within the byte budget, each edit adds one
/// undo step up to 20: after k edits of a freshly opened small image exactly
/// min(k, 20) undo steps are available.
pub proof fn law_undo_depth(s: DocState, image: Picture, adjustments: Adjustments)
    requires
        s.current is Some,
        history_bytes(s.undo.push(s.current.unwrap())) <= HISTORY_BYTES,
    ensures
        committed(s, image, adjustments).undo.len() == if s.undo.len() + 1 <= HISTORY_REVISIONS {
            s.undo.len() + 1int
        } else {
            HISTORY_REVISIONS as int
        },
{
    lemma_trimmed_within_budget(s.undo.push(s.current.unwrap()));
}

/// One call that changes a document's history: opening a file, pasting, a new
/// revision from a pixel edit or a slider change, undo, redo, or export.
pub enum DocStep {
    Open(Picture, Seq<char>),
    Paste(Picture),
    Change(Picture, Adjustments),
    Undo,
    Redo,
    Export,
}

/// The document after `t`; a change without an image or with invalid settings,
/// and an export without an image, are refused and change nothing.
pub open spec fn step(s: DocState, t: DocStep) -> DocState {
    match t {
        DocStep::Open(image, path) => replaced(s, image, Some(path)),
        DocStep::Paste(image) => replaced(s, image, None),
        DocStep::Change(image, a) => if s.current is Some && settings_valid(a) {
            committed(s, image, a)
        } else {
            s
        },
        DocStep::Undo => undone(s),
        DocStep::Redo => redone(s),
        DocStep::Export => if s.current is Some {
            exported(s)
        } else {
            s
        },
    }
}

/// The document after the calls `steps`, made on an editor without an image.
pub open spec fn run(steps: Seq<DocStep>) -> DocState
    decreases steps.len(),
{
    if steps.len() == 0 {
        empty_doc()
    } else {
        step(run(steps.drop_last()), steps.last())
    }
}

proof fn lemma_run_wf(steps: Seq<DocStep>)
    requires
        steps.len() < u64::MAX,
    ensures
        doc_wf(run(steps)),
        run(steps).next_id <= steps.len(),
    decreases steps.len(),
{
    if steps.len() > 0 {
        let before = steps.drop_last();
        lemma_run_wf(before);
        let s = run(before);
        match steps.last() {
            DocStep::Open(image, path) => law_history_order_kept(s, image, neutral(), Some(path)),
            DocStep::Paste(image) => law_history_order_kept(s, image, neutral(), None),
            DocStep::Change(image, a) => law_history_order_kept(s, image, a, None),
            _ => law_history_order_kept(s, s.current.unwrap().image, neutral(), None),
        }
    }
}

/// Whether the document has unexported changes, after any sequence of calls on
/// an editor without an image: it has none at first; opening a file or
/// exporting leaves none; pasting or making a new revision leaves some; undo
/// and redo leave some exactly when the revision they reach is not the one
/// last opened or exported.
pub proof fn law_dirty_after_any_calls(steps: Seq<DocStep>, next: DocStep)
    requires
        steps.len() + 1 < u64::MAX,
    ensures
        !is_dirty(run(Seq::empty())),
        doc_wf(run(steps)),
        match next {
            DocStep::Open(image, path) => !is_dirty(step(run(steps), next)),
            DocStep::Paste(image) => is_dirty(step(run(steps), next)),
            DocStep::Change(image, a) => run(steps).current is Some && settings_valid(a) ==> is_dirty(
                step(run(steps), next),
            ),
            DocStep::Export => run(steps).current is Some ==> !is_dirty(step(run(steps), next)),
            DocStep::Undo => run(steps).undo.len() > 0 ==> (is_dirty(step(run(steps), next)) <==> run(
                steps,
            ).undo.last().id != run(steps).saved_id),
            DocStep::Redo => run(steps).redo.len() > 0 ==> (is_dirty(step(run(steps), next)) <==> run(
                steps,
            ).redo.last().id != run(steps).saved_id),
        },
{
    lemma_run_wf(steps);
}

/// A picture small enough that 21 of them fit the history byte budget.
pub open spec fn small_picture(p: Picture) -> bool {
    p.pixels.len() <= 12_782_640
}

/// The document after a new revision for each of `changes`, in order.
pub open spec fn after_changes(s: DocState, changes: Seq<(Picture, Adjustments)>) -> DocState
    decreases changes.len(),
{
    if changes.len() == 0 {
        s
    } else {
        committed(after_changes(s, changes.drop_last()), changes.last().0, changes.last().1)
    }
}

proof fn lemma_small_bytes(u: Seq<RevisionView>, i: int)
    requires
        0 <= i <= u.len(),
        forall|j: int| 0 <= j < u.len() ==> small_picture(#[trigger] u[j].image),
    ensures
        bytes_upto(u, i) <= i * 12_782_640,
    decreases i,
{
    if i > 0 {
        lemma_small_bytes(u, i - 1);
        assert(small_picture(u[i - 1].image));
    }
}

proof fn lemma_changes(s: DocState, image: Picture, path: Seq<char>, changes: Seq<(Picture, Adjustments)>)
    requires
        doc_wf(s),
        s.next_id + changes.len() + 1 < u64::MAX,
        small_picture(image),
        forall|i: int| 0 <= i < changes.len() ==> small_picture(#[trigger] changes[i].0) && settings_valid(changes[i].1),
    ensures
        ({
            let t = after_changes(replaced(s, image, Some(path)), changes);
            &&& doc_wf(t)
            &&& t.current is Some
            &&& small_picture(t.current.unwrap().image)
            &&& forall|j: int| 0 <= j < t.undo.len() ==> small_picture(#[trigger] t.undo[j].image)
            &&& t.next_id == s.next_id + 1 + changes.len()
            &&& t.undo.len() == if changes.len() <= HISTORY_REVISIONS { changes.len() as int } else { HISTORY_REVISIONS as int }
        }),
    decreases changes.len(),
{
    if changes.len() == 0 {
        law_history_order_kept(s, image, neutral(), Some(path));
    } else {
        let before = changes.drop_last();
        assert forall|i: int| 0 <= i < before.len() implies small_picture(#[trigger] before[i].0) && settings_valid(before[i].1) by {
            assert(before[i] == changes[i]);
        }
        lemma_changes(s, image, path, before);
        let t = after_changes(replaced(s, image, Some(path)), before);
        let (img, a) = changes.last();
        let u = t.undo.push(t.current.unwrap());
        assert forall|j: int| 0 <= j < u.len() implies small_picture(#[trigger] u[j].image) by {
            if j < t.undo.len() {
                assert(u[j] == t.undo[j]);
            }
        }
        lemma_small_bytes(u, u.len() as int);
        law_undo_depth(t, img, a);
        law_history_order_kept(t, img, a, None);
        lemma_trimmed(u);
        let tr = trimmed(u);
        let k = u.len() - tr.len();
        assert forall|j: int| 0 <= j < tr.len() implies small_picture(#[trigger] tr[j].image) by {
            assert(tr[j] == u[k + j]);
        }
    }
}

/// After opening a small image and making k changes with small images, exactly
/// min(k, 20) undo steps are available, each reaching an older revision than
/// the one before.
pub proof fn law_undo_steps_after_changes(s: DocState, image: Picture, path: Seq<char>, changes: Seq<(Picture, Adjustments)>)
    requires
        doc_wf(s),
        s.next_id + changes.len() + 1 < u64::MAX,
        small_picture(image),
        forall|i: int| 0 <= i < changes.len() ==> small_picture(#[trigger] changes[i].0) && settings_valid(changes[i].1),
    ensures
        after_changes(replaced(s, image, Some(path)), changes).undo.len() == if changes.len() <= HISTORY_REVISIONS {
            changes.len() as int
        } else {
            HISTORY_REVISIONS as int
        },
        forall|i: int, j: int|
            0 <= i < j < after_changes(replaced(s, image, Some(path)), changes).undo.len() ==> (#[trigger] after_changes(
                replaced(s, image, Some(path)),
                changes,
            ).undo[i]).id < (#[trigger] after_changes(replaced(s, image, Some(path)), changes).undo[j]).id,
        after_changes(replaced(s, image, Some(path)), changes).undo.len() > 0 ==> after_changes(
            replaced(s, image, Some(path)),
            changes,
        ).undo.last().id < after_changes(replaced(s, image, Some(path)), changes).current.unwrap().id,
{
    lemma_changes(s, image, path, changes);
}

/// An exported document has no unexported changes; undoing past the export
/// makes it dirty again, and redoing back to the exported revision clean.
pub proof fn law_export_then_undo_redo(s: DocState)
    requires
        doc_wf(s),
        s.current is Some,
    ensures
        !is_dirty(exported(s)),
        s.undo.len() > 0 ==> is_dirty(undone(exported(s))),
        s.undo.len() > 0 ==> !is_dirty(redone(undone(exported(s)))),
{
    if s.undo.len() > 0 {
        assert(s.undo[s.undo.len() - 1].id < s.current.unwrap().id);
        law_redo_reverts_undo(exported(s));
    }
}

/// An image opened from a file starts out with nothing to export; a pasted
/// image starts out with unexported changes.
pub proof fn law_fresh_document_state(s: DocState, image: Picture, path: Seq<char>)
    requires
        s.next_id < u64::MAX,
    ensures
        !is_dirty(replaced(s, image, Some(path))),
        is_dirty(replaced(s, image, None)),
        replaced(s, image, Some(path)).undo.len() == 0,
        replaced(s, image, Some(path)).redo.len() == 0,
{
}

/// A document without a file is named "Clipboard image"; one opened from a
/// file is named after the path's file name.
pub proof fn law_document_name(s: DocState)
    requires
        doc_wf(s),
        s.current is Some,
    ensures
        match s.path {
            None => s.name == "Clipboard image"@,
            Some(p) => (path_file_name(p) matches Some(n) ==> s.name == n),
        },
{
}

// ---------------------------------------------------------------------------
// Export
// ---------------------------------------------------------------------------

/// The image formats that the `image` crate tells apart by file extension, as
/// far as export cares: the five it can write, and any other.
#[derive(Clone, Copy, Debug, PartialEq, Eq, Structural)]
pub enum ImageKind {
    Png,
    Jpeg,
    WebP,
    Bmp,
    Tiff,
    Other,
}

/// The formats an image can be exported to.
#[derive(Clone, Copy, Debug, PartialEq, Eq, Structural)]
pub enum ExportFormat {
    Png,
    Jpeg,
    WebP,
    Bmp,
    Tiff,
}

/// The format that `image::ImageFormat::from_path` gives the path `path`, by
/// its extension; `None` when it recognises none.
pub uninterp spec fn image_format_of_path(path: Seq<char>) -> Option<ImageKind>;

/// `image::ImageFormat::from_path`, with its result told apart by variant.
#[verifier::external_body]
fn format_from_path(path: &str) -> (r: Option<ImageKind>)
    ensures
        r == image_format_of_path(path@),
{
    match image::ImageFormat::from_path(path) {
        Ok(image::ImageFormat::Png) => Some(ImageKind::Png),
        Ok(image::ImageFormat::Jpeg) => Some(ImageKind::Jpeg),
        Ok(image::ImageFormat::WebP) => Some(ImageKind::WebP),
        Ok(image::ImageFormat::Bmp) => Some(ImageKind::Bmp),
        Ok(image::ImageFormat::Tiff) => Some(ImageKind::Tiff),
        Ok(_) => Some(ImageKind::Other),
        Err(_) => None,
    }
}

/// The export format for a recognised image format, or why there is none.
pub open spec fn export_choice(kind: Option<ImageKind>) -> Result<ExportFormat, Seq<char>> {
    match kind {
        None => Err("Choose a .png, .jpg, .webp, .bmp or .tiff filename."@),
        Some(ImageKind::Png) => Ok(ExportFormat::Png),
        Some(ImageKind::Jpeg) => Ok(ExportFormat::Jpeg),
        Some(ImageKind::WebP) => Ok(ExportFormat::WebP),
        Some(ImageKind::Bmp) => Ok(ExportFormat::Bmp),
        Some(ImageKind::Tiff) => Ok(ExportFormat::Tiff),
        Some(_) => Err("Export supports PNG, JPEG, WebP, BMP and TIFF."@),
    }
}

/// `r` is the outcome `expected`, messages compared by their characters.
pub open spec fn same_outcome<T>(r: Result<T, String>, expected: Result<T, Seq<char>>) -> bool {
    match (r, expected) {
        (Ok(a), Ok(b)) => a == b,
        (Err(e), Err(m)) => e@ == m,
        _ => false,
    }
}

/// The export format for a recognised image format: PNG, JPEG, WebP, BMP and
/// TIFF are accepted.
pub fn export_format_for(kind: Option<ImageKind>) -> (r: Result<ExportFormat, String>)
    ensures
        same_outcome(r, export_choice(kind)),
{
    match kind {
        None => Err(owned("Choose a .png, .jpg, .webp, .bmp or .tiff filename.")),
        Some(ImageKind::Png) => Ok(ExportFormat::Png),
        Some(ImageKind::Jpeg) => Ok(ExportFormat::Jpeg),
        Some(ImageKind::WebP) => Ok(ExportFormat::WebP),
        Some(ImageKind::Bmp) => Ok(ExportFormat::Bmp),
        Some(ImageKind::Tiff) => Ok(ExportFormat::Tiff),
        Some(_) => Err(owned("Export supports PNG, JPEG, WebP, BMP and TIFF.")),
    }
}

/// The export format that the file name `path` asks for.
pub fn export_format(path: &str) -> (r: Result<ExportFormat, String>)
    ensures
        same_outcome(r, export_choice(image_format_of_path(path@))),
{
    export_format_for(format_from_path(path))
}

/// Channel value `v` with opacity `a` composited onto white, rounded.
pub open spec fn over_white(v: u8, a: u8) -> u8 {
    ((v * a + 255 * (255 - a) + 127) / 255) as u8
}

/// The RGB samples of `p` composited onto white, three per pixel.
pub open spec fn flattened(p: Picture) -> Seq<u8> {
    Seq::new(
        (area(p.width, p.height) * 3) as nat,
        |i: int| over_white(p.pixels[4 * (i / 3) + i % 3], p.pixels[4 * (i / 3) + 3]),
    )
}

/// The RGB samples of `img` composited onto white, for formats without alpha.
pub fn flatten_onto_white(img: &Raster) -> (rgb: Vec<u8>)
    ensures
        rgb@ == flattened(img@),
        rgb@.len() == area(img@.width, img@.height) * 3,
        forall|k: int, c: int|
            0 <= k < area(img@.width, img@.height) && 0 <= c < 3 ==> #[trigger] rgb@[3 * k + c]
                == over_white(img@.pixels[4 * k + c], img@.pixels[4 * k + 3]),
{
    img.check_well_sized();
    let px = img.as_bytes();
    let len = px.len();
    let n = len / 4;
    let mut out: Vec<u8> = Vec::new();
    let mut k: usize = 0;
    while k < n
        invariant
            px@ == img@.pixels,
            n == area(img@.width, img@.height),
            px@.len() == n * 4,
            len == n * 4,
            k <= n,
            out@.len() == 3 * k,
            forall|j: int, c: int|
                0 <= j < k && 0 <= c < 3 ==> #[trigger] out@[3 * j + c] == over_white(
                    px@[4 * j + c],
                    px@[4 * j + 3],
                ),
        decreases n - k,
    {
        let a = px[4 * k + 3] as u32;
        let mut c: usize = 0;
        while c < 3
            invariant
                px@ == img@.pixels,
                n == area(img@.width, img@.height),
                px@.len() == n * 4,
                len == n * 4,
                k < n,
                c <= 3,
                a == px@[4 * k + 3],
                out@.len() == 3 * k + c,
                forall|j: int, d: int|
                    (0 <= j < k && 0 <= d < 3) || (j == k && 0 <= d < c) ==> #[trigger] out@[3 * j
                        + d] == over_white(px@[4 * j + d], px@[4 * j + 3]),
            decreases 3 - c,
        {
            let v = px[4 * k + c] as u32;
            assert(v * a + 255 * (255 - a) + 127 <= 65152) by (nonlinear_arith)
                requires
                    v <= 255,
                    a <= 255,
            ;
            let m = (v * a + 255 * (255 - a) + 127) / 255;
            out.push(m as u8);
            c = c + 1;
        }
        k = k + 1;
    }
    proof {
        assert forall|i: int| 0 <= i < out@.len() implies out@[i] == flattened(img@)[i] by {
            let k = i / 3;
            let c = i % 3;
            assert(i == 3 * k + c);
            assert(0 <= k < n);
        }
        assert(out@ =~= flattened(img@));
    }
    out
}

/// What exporting `img` in `format` writes: its encoding, with the image
/// composited onto white for JPEG, which has no alpha channel.
pub open spec fn export_encoding(img: Picture, format: ExportFormat) -> Option<Seq<u8>> {
    if format == ExportFormat::Jpeg {
        encoding(format, img.width, img.height, false, flattened(img))
    } else {
        encoding(format, img.width, img.height, true, img.pixels)
    }
}

/// The bytes of a file named `path` holding `img`: refused when the name's
/// extension asks for no format or for one that cannot be written; JPEG gets
/// the image composited onto white.
pub fn export_bytes(img: &Raster, path: &str) -> (r: Result<Vec<u8>, String>)
    ensures
        export_choice(image_format_of_path(path@)) matches Err(msg) ==> fails_with(r, msg),
        export_choice(image_format_of_path(path@)) matches Ok(format) ==> match export_encoding(img@, format) {
            Some(bytes) => r matches Ok(v) && v@ == bytes,
            None => r is Err,
        },
{
    let format = export_format(path)?;
    img.check_well_sized();
    if format == ExportFormat::Jpeg {
        let rgb = flatten_onto_white(img);
        encode(format, img.width(), img.height(), false, rgb.as_slice())
    } else {
        encode(format, img.width(), img.height(), true, img.as_bytes())
    }
}

// ---------------------------------------------------------------------------
// Revision history
// ---------------------------------------------------------------------------

/// What a revision holds: its pixels, its slider settings and its number.
pub struct RevisionView {
    pub image: Picture,
    pub adjustments: Adjustments,
    pub id: u64,
}

/// What a document holds.
pub struct DocState {
    pub current: Option<RevisionView>,
    pub undo: Seq<RevisionView>,
    pub redo: Seq<RevisionView>,
    pub path: Option<Seq<char>>,
    pub name: Seq<char>,
    pub siblings: Seq<Seq<char>>,
    pub index: usize,
    pub next_id: u64,
    pub saved_id: u64,
}

/// Bytes of pixels held by the first `i` revisions of `u`.
pub open spec fn bytes_upto(u: Seq<RevisionView>, i: int) -> int
    decreases i,
{
    if i <= 0 {
        0
    } else {
        bytes_upto(u, i - 1) + u[i - 1].image.pixels.len()
    }
}

/// Bytes of pixels held by all revisions of `u`.
pub open spec fn history_bytes(u: Seq<RevisionView>) -> int {
    bytes_upto(u, u.len() as int)
}

/// The undo history after dropping its oldest revisions while more than one
/// remains and it holds more than 20 revisions or more than the byte budget.
pub open spec fn trimmed(u: Seq<RevisionView>) -> Seq<RevisionView>
    decreases u.len(),
{
    if u.len() > 1 && (u.len() > HISTORY_REVISIONS || history_bytes(u) > HISTORY_BYTES) {
        trimmed(u.drop_first())
    } else {
        u
    }
}

/// Whether the current revision differs from the last one opened or exported.
pub open spec fn is_dirty(s: DocState) -> bool {
    s.current matches Some(r) && r.id != s.saved_id
}

/// The document after a new revision with `image` and `adjustments` replaces
/// the current one, which goes to the undo history; redo history is cleared.
pub open spec fn committed(s: DocState, image: Picture, adjustments: Adjustments) -> DocState {
    DocState {
        current: Some(RevisionView { image, adjustments, id: (s.next_id + 1) as u64 }),
        undo: trimmed(s.undo.push(s.current.unwrap())),
        redo: Seq::empty(),
        next_id: (s.next_id + 1) as u64,
        ..s
    }
}

/// The document after undo: the newest undo revision becomes current and the
/// current one goes to redo history; nothing happens without undo history.
pub open spec fn undone(s: DocState) -> DocState {
    if s.undo.len() == 0 {
        s
    } else {
        DocState {
            current: Some(s.undo.last()),
            undo: s.undo.drop_last(),
            redo: s.redo.push(s.current.unwrap()),
            ..s
        }
    }
}

/// The document after redo, the mirror of undo.
pub open spec fn redone(s: DocState) -> DocState {
    if s.redo.len() == 0 {
        s
    } else {
        DocState {
            current: Some(s.redo.last()),
            redo: s.redo.drop_last(),
            undo: s.undo.push(s.current.unwrap()),
            ..s
        }
    }
}

/// The name shown for a document with the file `path`: the path's file name,
/// or "Clipboard image" without a file (or a file name).
pub open spec fn display_name(path: Option<Seq<char>>) -> Seq<char> {
    match path {
        Some(p) => match path_file_name(p) {
            Some(n) => n,
            None => "Clipboard image"@,
        },
        None => "Clipboard image"@,
    }
}

/// A fresh document holding `image`, without history or neighbours. A document
/// with a path starts out exported; one without (a pasted image) does not.
pub open spec fn replaced(s: DocState, image: Picture, path: Option<Seq<char>>) -> DocState {
    DocState {
        current: Some(RevisionView { image, adjustments: neutral(), id: (s.next_id + 1) as u64 }),
        undo: Seq::empty(),
        redo: Seq::empty(),
        path,
        name: display_name(path),
        siblings: Seq::empty(),
        index: 0,
        next_id: (s.next_id + 1) as u64,
        saved_id: if path is Some {
            (s.next_id + 1) as u64
        } else {
            0
        },
    }
}

/// The document after exporting its current revision.
pub open spec fn exported(s: DocState) -> DocState {
    DocState { saved_id: s.current.unwrap().id, ..s }
}

/// The last opened or exported revision number is at most `next_id`, a
/// document is named after its file, and every revision's settings are valid.
/// Revision numbers grow along undo history, then the current revision, then
/// redo history from its newest end; all are positive and at most `next_id`;
/// both histories are empty without a current revision and together hold at
/// most 20 revisions.
pub open spec fn doc_wf(s: DocState) -> bool {
    &&& s.saved_id <= s.next_id
    &&& s.current is Some ==> s.name == display_name(s.path)
    &&& s.current matches Some(c) ==> settings_valid(c.adjustments)
    &&& forall|i: int| 0 <= i < s.undo.len() ==> settings_valid(#[trigger] s.undo[i].adjustments)
    &&& forall|i: int| 0 <= i < s.redo.len() ==> settings_valid(#[trigger] s.redo[i].adjustments)
    &&& s.current is None ==> s.undo.len() == 0 && s.redo.len() == 0
    &&& s.undo.len() + s.redo.len() <= HISTORY_REVISIONS
    &&& s.current matches Some(c) ==> {
        &&& 0 < c.id <= s.next_id
        &&& forall|i: int, j: int|
            0 <= i < j < s.undo.len() ==> (#[trigger] s.undo[i]).id < (#[trigger] s.undo[j]).id
        &&& forall|i: int| 0 <= i < s.undo.len() ==> 0 < (#[trigger] s.undo[i]).id < c.id
        &&& forall|i: int, j: int|
            0 <= i < j < s.redo.len() ==> (#[trigger] s.redo[i]).id > (#[trigger] s.redo[j]).id
        &&& forall|i: int| 0 <= i < s.redo.len() ==> c.id < (#[trigger] s.redo[i]).id <= s.next_id
    }
}

/// `img` can be the current image of `s` as displayed: the sliders keep its
/// size, and neutral sliders change nothing.
pub open spec fn renders(s: DocState, img: Picture) -> bool {
    s.current matches Some(c) ==> {
        &&& img.width == c.image.width
        &&& img.height == c.image.height
        &&& same_settings(c.adjustments, neutral()) ==> img == c.image
    }
}

/// The document of an editor without an image.
pub open spec fn empty_doc() -> DocState {
    DocState {
        current: None,
        undo: Seq::empty(),
        redo: Seq::empty(),
        path: None,
        name: Seq::empty(),
        siblings: Seq::empty(),
        index: 0,
        next_id: 0,
        saved_id: 0,
    }
}

proof fn lemma_bytes_upto_monotone(u: Seq<RevisionView>, i: int, j: int)
    requires
        0 <= i <= j <= u.len(),
    ensures
        bytes_upto(u, i) <= bytes_upto(u, j),
    decreases j - i,
{
    if i < j {
        lemma_bytes_upto_monotone(u, i, j - 1);
    }
}

/// Trimming keeps a suffix of the history, at least one revision of a
/// non-empty one, and leaves one revision or a history within both limits.
pub proof fn lemma_trimmed(u: Seq<RevisionView>)
    ensures
        trimmed(u).len() <= u.len(),
        trimmed(u) == u.subrange(u.len() - trimmed(u).len(), u.len() as int),
        u.len() >= 1 ==> trimmed(u).len() >= 1,
        trimmed(u).len() <= 1 || (trimmed(u).len() <= HISTORY_REVISIONS && history_bytes(trimmed(u))
            <= HISTORY_BYTES),
    decreases u.len(),
{
    if u.len() > 1 && (u.len() > HISTORY_REVISIONS || history_bytes(u) > HISTORY_BYTES) {
        lemma_trimmed(u.drop_first());
        assert(u.drop_first().subrange(
            u.drop_first().len() - trimmed(u.drop_first()).len(),
            u.drop_first().len() as int,
        ) =~= u.subrange(u.len() - trimmed(u).len(), u.len() as int));
    } else {
        assert(u =~= u.subrange(0, u.len() as int));
    }
}

/// Trimming keeps a suffix, and when it drops anything, the suffix one
/// revision longer breaks a limit.
proof fn lemma_trimmed_minimal(u: Seq<RevisionView>)
    ensures
        trimmed(u) == u.subrange(u.len() - trimmed(u).len(), u.len() as int),
        trimmed(u).len() < u.len() ==> (trimmed(u).len() + 1 > HISTORY_REVISIONS || history_bytes(
            u.subrange(u.len() - trimmed(u).len() - 1, u.len() as int),
        ) > HISTORY_BYTES),
    decreases u.len(),
{
    lemma_trimmed(u);
    if u.len() > 1 && (u.len() > HISTORY_REVISIONS || history_bytes(u) > HISTORY_BYTES) {
        let v = u.drop_first();
        lemma_trimmed_minimal(v);
        lemma_trimmed(v);
        let m = trimmed(v).len();
        assert(trimmed(u) == trimmed(v));
        if m == v.len() {
            assert(u.subrange(u.len() - m - 1, u.len() as int) =~= u);
        } else {
            assert(v.subrange(v.len() - m - 1, v.len() as int) =~= u.subrange(u.len() - m - 1, u.len() as int));
        }
    }
}

/// An edit drops only as many of the oldest revisions as the limits need: the
/// undo history kept is the newest part of the old history plus the replaced
/// revision, and keeping one more of the dropped revisions would make it more
/// than 20 revisions or more than the byte budget.
pub proof fn law_trim_drops_only_what_it_must(s: DocState, image: Picture, adjustments: Adjustments)
    requires
        s.current is Some,
    ensures
        ({
            let u = s.undo.push(s.current.unwrap());
            let t = committed(s, image, adjustments).undo;
            &&& t == u.subrange(u.len() - t.len(), u.len() as int)
            &&& t.len() < u.len() ==> (t.len() + 1 > HISTORY_REVISIONS || history_bytes(
                u.subrange(u.len() - t.len() - 1, u.len() as int),
            ) > HISTORY_BYTES)
        }),
{
    lemma_trimmed_minimal(s.undo.push(s.current.unwrap()));
}

/// A history within the byte budget is trimmed to its newest 20 revisions.
proof fn lemma_trimmed_within_budget(u: Seq<RevisionView>)
    requires
        history_bytes(u) <= HISTORY_BYTES,
    ensures
        trimmed(u).len() == if u.len() <= HISTORY_REVISIONS { u.len() as int } else { HISTORY_REVISIONS as int },
    decreases u.len(),
{
    if u.len() > HISTORY_REVISIONS {
        let v = u.drop_first();
        assert forall|i: int| 0 <= i <= v.len() implies bytes_upto(v, i) + u[0].image.pixels.len() == bytes_upto(u, i + 1) by {
            lemma_bytes_upto_shift(u, i);
        }
        lemma_trimmed_within_budget(v);
    }
}

proof fn lemma_bytes_upto_shift(u: Seq<RevisionView>, i: int)
    requires
        u.len() > 0,
        0 <= i <= u.len() - 1,
    ensures
        bytes_upto(u.drop_first(), i) + u[0].image.pixels.len() == bytes_upto(u, i + 1),
    decreases i,
{
    if i > 0 {
        lemma_bytes_upto_shift(u, i - 1);
        assert(u.drop_first()[i - 1] == u[i]);
    } else {
        assert(bytes_upto(u, 0) == 0);
    }
}

/// Why a pixel operation named `action` with `args` is refused on `input`, or
/// `None` when it applies.
pub open spec fn pixel_op_error(action: Seq<char>, args: Seq<u32>, input: Picture) -> Option<Seq<char>> {
    if action == "rotate_right"@ || action == "rotate_left"@ || action == "rotate_180"@ || action
        == "flip_horizontal"@ || action == "flip_vertical"@ || action == "grayscale"@ || action
        == "invert"@ || action == "auto"@ {
        None
    } else if action == "resize"@ && args.len() == 2 {
        if dimensions_ok(args[0], args[1]) {
            None
        } else {
            Some("Dimensions must be positive and no larger than 80 megapixels."@)
        }
    } else if action == "crop"@ && args.len() == 4 {
        if args[0] >= input.width || args[1] >= input.height || args[2] == 0 || args[3] == 0 {
            Some("Choose a crop area inside the image."@)
        } else {
            None
        }
    } else {
        Some("Unknown image operation or invalid dimensions."@)
    }
}

/// `out` is what the pixel operation `action` with `args` makes of `input`.
pub open spec fn pixel_op_result(action: Seq<char>, args: Seq<u32>, input: Picture, out: Picture) -> bool {
    if action == "rotate_right"@ {
        is_rotated90(input, out)
    } else if action == "rotate_left"@ {
        is_rotated270(input, out)
    } else if action == "rotate_180"@ {
        is_rotated180(input, out)
    } else if action == "flip_horizontal"@ {
        is_flipped_horizontally(input, out)
    } else if action == "flip_vertical"@ {
        is_flipped_vertically(input, out)
    } else if action == "grayscale"@ {
        is_grayscaled(input, out)
    } else if action == "invert"@ {
        is_inverted(input, out)
    } else if action == "auto"@ {
        is_auto_adjusted(input, out)
    } else if action == "resize"@ {
        &&& out.width == args[0]
        &&& out.height == args[1]
        &&& well_sized(out)
        &&& args[0] == input.width && args[1] == input.height ==> out == input
        &&& keeps_flat_channels(input, out)
    } else {
        match crop_region(input, args[0], args[1], args[2], args[3]) {
            Some((w, h)) => is_cut_out(input, args[0] as int, args[1] as int, w, h, out),
            None => false,
        }
    }
}

/// The names of the editing actions are all different.
proof fn lemma_action_names_distinct()
    ensures
        "rotate_right"@ != "rotate_left"@,
        "rotate_right"@ != "rotate_180"@,
        "rotate_right"@ != "flip_horizontal"@,
        "rotate_right"@ != "flip_vertical"@,
        "rotate_right"@ != "grayscale"@,
        "rotate_right"@ != "invert"@,
        "rotate_right"@ != "auto"@,
        "rotate_right"@ != "resize"@,
        "rotate_right"@ != "crop"@,
        "rotate_right"@ != "undo"@,
        "rotate_right"@ != "redo"@,
        "rotate_left"@ != "rotate_180"@,
        "rotate_left"@ != "flip_horizontal"@,
        "rotate_left"@ != "flip_vertical"@,
        "rotate_left"@ != "grayscale"@,
        "rotate_left"@ != "invert"@,
        "rotate_left"@ != "auto"@,
        "rotate_left"@ != "resize"@,
        "rotate_left"@ != "crop"@,
        "rotate_left"@ != "undo"@,
        "rotate_left"@ != "redo"@,
        "rotate_180"@ != "flip_horizontal"@,
        "rotate_180"@ != "flip_vertical"@,
        "rotate_180"@ != "grayscale"@,
        "rotate_180"@ != "invert"@,
        "rotate_180"@ != "auto"@,
        "rotate_180"@ != "resize"@,
        "rotate_180"@ != "crop"@,
        "rotate_180"@ != "undo"@,
        "rotate_180"@ != "redo"@,
        "flip_horizontal"@ != "flip_vertical"@,
        "flip_horizontal"@ != "grayscale"@,
        "flip_horizontal"@ != "invert"@,
        "flip_horizontal"@ != "auto"@,
        "flip_horizontal"@ != "resize"@,
        "flip_horizontal"@ != "crop"@,
        "flip_horizontal"@ != "undo"@,
        "flip_horizontal"@ != "redo"@,
        "flip_vertical"@ != "grayscale"@,
        "flip_vertical"@ != "invert"@,
        "flip_vertical"@ != "auto"@,
        "flip_vertical"@ != "resize"@,
        "flip_vertical"@ != "crop"@,
        "flip_vertical"@ != "undo"@,
        "flip_vertical"@ != "redo"@,
        "grayscale"@ != "invert"@,
        "grayscale"@ != "auto"@,
        "grayscale"@ != "resize"@,
        "grayscale"@ != "crop"@,
        "grayscale"@ != "undo"@,
        "grayscale"@ != "redo"@,
        "invert"@ != "auto"@,
        "invert"@ != "resize"@,
        "invert"@ != "crop"@,
        "invert"@ != "undo"@,
        "invert"@ != "redo"@,
        "auto"@ != "resize"@,
        "auto"@ != "crop"@,
        "auto"@ != "undo"@,
        "auto"@ != "redo"@,
        "resize"@ != "crop"@,
        "resize"@ != "undo"@,
        "resize"@ != "redo"@,
        "crop"@ != "undo"@,
        "crop"@ != "redo"@,
        "undo"@ != "redo"@,
{
    reveal_strlit("rotate_right");
    reveal_strlit("rotate_left");
    reveal_strlit("rotate_180");
    reveal_strlit("flip_horizontal");
    reveal_strlit("flip_vertical");
    reveal_strlit("grayscale");
    reveal_strlit("invert");
    reveal_strlit("auto");
    reveal_strlit("resize");
    reveal_strlit("crop");
    reveal_strlit("undo");
    reveal_strlit("redo");
    assert("rotate_right"@.len() != "rotate_left"@.len());
    assert("rotate_right"@.len() != "rotate_180"@.len());
    assert("rotate_right"@.len() != "flip_horizontal"@.len());
    assert("rotate_right"@.len() != "flip_vertical"@.len());
    assert("rotate_right"@.len() != "grayscale"@.len());
    assert("rotate_right"@.len() != "invert"@.len());
    assert("rotate_right"@.len() != "auto"@.len());
    assert("rotate_right"@.len() != "resize"@.len());
    assert("rotate_right"@.len() != "crop"@.len());
    assert("rotate_right"@.len() != "undo"@.len());
    assert("rotate_right"@.len() != "redo"@.len());
    assert("rotate_left"@.len() != "rotate_180"@.len());
    assert("rotate_left"@.len() != "flip_horizontal"@.len());
    assert("rotate_left"@.len() != "flip_vertical"@.len());
    assert("rotate_left"@.len() != "grayscale"@.len());
    assert("rotate_left"@.len() != "invert"@.len());
    assert("rotate_left"@.len() != "auto"@.len());
    assert("rotate_left"@.len() != "resize"@.len());
    assert("rotate_left"@.len() != "crop"@.len());
    assert("rotate_left"@.len() != "undo"@.len());
    assert("rotate_left"@.len() != "redo"@.len());
    assert("rotate_180"@.len() != "flip_horizontal"@.len());
    assert("rotate_180"@.len() != "flip_vertical"@.len());
    assert("rotate_180"@.len() != "grayscale"@.len());
    assert("rotate_180"@.len() != "invert"@.len());
    assert("rotate_180"@.len() != "auto"@.len());
    assert("rotate_180"@.len() != "resize"@.len());
    assert("rotate_180"@.len() != "crop"@.len());
    assert("rotate_180"@.len() != "undo"@.len());
    assert("rotate_180"@.len() != "redo"@.len());
    assert("flip_horizontal"@.len() != "flip_vertical"@.len());
    assert("flip_horizontal"@.len() != "grayscale"@.len());
    assert("flip_horizontal"@.len() != "invert"@.len());
    assert("flip_horizontal"@.len() != "auto"@.len());
    assert("flip_horizontal"@.len() != "resize"@.len());
    assert("flip_horizontal"@.len() != "crop"@.len());
    assert("flip_horizontal"@.len() != "undo"@.len());
    assert("flip_horizontal"@.len() != "redo"@.len());
    assert("flip_vertical"@.len() != "grayscale"@.len());
    assert("flip_vertical"@.len() != "invert"@.len());
    assert("flip_vertical"@.len() != "auto"@.len());
    assert("flip_vertical"@.len() != "resize"@.len());
    assert("flip_vertical"@.len() != "crop"@.len());
    assert("flip_vertical"@.len() != "undo"@.len());
    assert("flip_vertical"@.len() != "redo"@.len());
    assert("grayscale"@.len() != "invert"@.len());
    assert("grayscale"@.len() != "auto"@.len());
    assert("grayscale"@.len() != "resize"@.len());
    assert("grayscale"@.len() != "crop"@.len());
    assert("grayscale"@.len() != "undo"@.len());
    assert("grayscale"@.len() != "redo"@.len());
    assert("invert"@.len() != "auto"@.len());
    assert("invert"@[0] != "resize"@[0]);
    assert("invert"@.len() != "crop"@.len());
    assert("invert"@.len() != "undo"@.len());
    assert("invert"@.len() != "redo"@.len());
    assert("auto"@.len() != "resize"@.len());
    assert("auto"@[0] != "crop"@[0]);
    assert("auto"@[0] != "undo"@[0]);
    assert("auto"@[0] != "redo"@[0]);
    assert("resize"@.len() != "crop"@.len());
    assert("resize"@.len() != "undo"@.len());
    assert("resize"@.len() != "redo"@.len());
    assert("crop"@[0] != "undo"@[0]);
    assert("crop"@[0] != "redo"@[0]);
    assert("undo"@[0] != "redo"@[0]);
}

/// Each pixel edit moves every sample where its name says: "rotate_right"
/// turns a quarter turn clockwise, "rotate_left" counter-clockwise,
/// "rotate_180" half a turn, "flip_horizontal" mirrors left to right,
/// "flip_vertical" top to bottom, and "invert" and "grayscale" keep every
/// sample in place, inverting the colours or replacing them by the luma,
/// keeping alpha.
pub proof fn law_pixel_edits_move_samples(action: Seq<char>, args: Seq<u32>, p: Picture, q: Picture)
    requires
        pixel_op_result(action, args, p, q),
    ensures
        action == "rotate_right"@ ==> q.width == p.height && q.height == p.width && forall|x: int, y: int, c: int|
            0 <= x < q.width && 0 <= y < q.height && 0 <= c < 4 ==> #[trigger] q.pixels[(y * q.width + x) * 4 + c]
                == p.pixels[((p.height - 1 - x) * p.width + y) * 4 + c],
        action == "rotate_left"@ ==> q.width == p.height && q.height == p.width && forall|x: int, y: int, c: int|
            0 <= x < q.width && 0 <= y < q.height && 0 <= c < 4 ==> #[trigger] q.pixels[(y * q.width + x) * 4 + c]
                == p.pixels[(x * p.width + (p.width - 1 - y)) * 4 + c],
        action == "rotate_180"@ ==> q.width == p.width && q.height == p.height && forall|x: int, y: int, c: int|
            0 <= x < q.width && 0 <= y < q.height && 0 <= c < 4 ==> #[trigger] q.pixels[(y * q.width + x) * 4 + c]
                == p.pixels[((p.height - 1 - y) * p.width + (p.width - 1 - x)) * 4 + c],
        action == "flip_horizontal"@ ==> q.width == p.width && q.height == p.height && forall|x: int, y: int, c: int|
            0 <= x < q.width && 0 <= y < q.height && 0 <= c < 4 ==> #[trigger] q.pixels[(y * q.width + x) * 4 + c]
                == p.pixels[(y * p.width + (p.width - 1 - x)) * 4 + c],
        action == "flip_vertical"@ ==> q.width == p.width && q.height == p.height && forall|x: int, y: int, c: int|
            0 <= x < q.width && 0 <= y < q.height && 0 <= c < 4 ==> #[trigger] q.pixels[(y * q.width + x) * 4 + c]
                == p.pixels[((p.height - 1 - y) * p.width + x) * 4 + c],
        action == "invert"@ ==> q.width == p.width && q.height == p.height && forall|k: int, c: int|
            0 <= k < p.width * p.height && 0 <= c < 4 ==> #[trigger] q.pixels[4 * k + c] == if c < 3 {
                255 - p.pixels[4 * k + c]
            } else {
                p.pixels[4 * k + c] as int
            },
        action == "grayscale"@ ==> q.width == p.width && q.height == p.height && forall|k: int, c: int|
            0 <= k < p.width * p.height && 0 <= c < 4 ==> #[trigger] q.pixels[4 * k + c] == if c < 3 {
                (2126 * p.pixels[4 * k] + 7152 * p.pixels[4 * k + 1] + 722 * p.pixels[4 * k + 2]) / 10000
            } else {
                p.pixels[4 * k + c] as int
            },
{
    lemma_action_names_distinct();
    if action == "rotate_right"@ {
        assert forall|x: int, y: int, c: int|
            0 <= x < q.width && 0 <= y < q.height && 0 <= c < 4 implies #[trigger] q.pixels[(y * q.width + x) * 4 + c]
                == p.pixels[((p.height - 1 - x) * p.width + y) * 4 + c] by {
            assert(sample(q, x, y, c) == sample(p, y, p.height - 1 - x, c));
        }
    } else if action == "rotate_left"@ {
        assert forall|x: int, y: int, c: int|
            0 <= x < q.width && 0 <= y < q.height && 0 <= c < 4 implies #[trigger] q.pixels[(y * q.width + x) * 4 + c]
                == p.pixels[(x * p.width + (p.width - 1 - y)) * 4 + c] by {
            assert(sample(q, x, y, c) == sample(p, p.width - 1 - y, x, c));
        }
    } else if action == "rotate_180"@ {
        assert forall|x: int, y: int, c: int|
            0 <= x < q.width && 0 <= y < q.height && 0 <= c < 4 implies #[trigger] q.pixels[(y * q.width + x) * 4 + c]
                == p.pixels[((p.height - 1 - y) * p.width + (p.width - 1 - x)) * 4 + c] by {
            assert(sample(q, x, y, c) == sample(p, p.width - 1 - x, p.height - 1 - y, c));
        }
    } else if action == "flip_horizontal"@ {
        assert forall|x: int, y: int, c: int|
            0 <= x < q.width && 0 <= y < q.height && 0 <= c < 4 implies #[trigger] q.pixels[(y * q.width + x) * 4 + c]
                == p.pixels[(y * p.width + (p.width - 1 - x)) * 4 + c] by {
            assert(sample(q, x, y, c) == sample(p, p.width - 1 - x, y, c));
        }
    } else if action == "flip_vertical"@ {
        assert forall|x: int, y: int, c: int|
            0 <= x < q.width && 0 <= y < q.height && 0 <= c < 4 implies #[trigger] q.pixels[(y * q.width + x) * 4 + c]
                == p.pixels[((p.height - 1 - y) * p.width + x) * 4 + c] by {
            assert(sample(q, x, y, c) == sample(p, x, p.height - 1 - y, c));
        }
    } else if action == "invert"@ {
        assert forall|k: int, c: int| 0 <= k < p.width * p.height && 0 <= c < 4 implies #[trigger] q.pixels[4 * k + c]
            == if c < 3 {
            255 - p.pixels[4 * k + c]
        } else {
            p.pixels[4 * k + c] as int
        } by {
            assert(chan(q, k, c) == q.pixels[4 * k + c]);
        }
    } else if action == "grayscale"@ {
        assert forall|k: int, c: int| 0 <= k < p.width * p.height && 0 <= c < 4 implies #[trigger] q.pixels[4 * k + c]
            == if c < 3 {
            (2126 * p.pixels[4 * k] + 7152 * p.pixels[4 * k + 1] + 722 * p.pixels[4 * k + 2]) / 10000
        } else {
            p.pixels[4 * k + c] as int
        } by {
            assert(chan(q, k, c) == q.pixels[4 * k + c]);
            assert(chan(p, k, 0) == p.pixels[4 * k]);
        }
    }
}

fn is_action(action: &str, name: &str) -> (r: bool)
    ensures
        r == (action@ == name@),
{
    same_text(action, name)
}

/// Applies the pixel operation `action` with `args` to `image`.
fn apply_pixel_op(action: &str, args: &[u32], image: &Raster) -> (r: Result<Raster, String>)
    ensures
        match pixel_op_error(action@, args@, image@) {
            Some(msg) => fails_with(r, msg),
            None => r matches Ok(out) && pixel_op_result(action@, args@, image@, out@),
        },
{
    proof {
        lemma_action_names_distinct();
    }
    if is_action(action, "rotate_right") {
        Ok(image.rotate90())
    } else if is_action(action, "rotate_left") {
        Ok(image.rotate270())
    } else if is_action(action, "rotate_180") {
        Ok(image.rotate180())
    } else if is_action(action, "flip_horizontal") {
        Ok(image.fliph())
    } else if is_action(action, "flip_vertical") {
        Ok(image.flipv())
    } else if is_action(action, "grayscale") {
        Ok(image.grayscale())
    } else if is_action(action, "invert") {
        let mut out = image.duplicate();
        out.invert();
        Ok(out)
    } else if is_action(action, "auto") {
        Ok(auto_adjust(image))
    } else if is_action(action, "resize") && args.len() == 2 {
        dimensions(args[0], args[1])?;
        Ok(resize_image(image, args[0], args[1]))
    } else if is_action(action, "crop") && args.len() == 4 {
        if args[0] >= image.width() || args[1] >= image.height() || args[2] == 0 || args[3] == 0 {
            return Err(owned("Choose a crop area inside the image."));
        }
        Ok(crop_image(image, args[0], args[1], args[2], args[3]))
    } else {
        Err(owned("Unknown image operation or invalid dimensions."))
    }
}

/// The character of the standard base64 alphabet for the six-bit value `i`.
pub open spec fn base64_char(i: int) -> char {
    if i < 26 {
        (65 + i) as char
    } else if i < 52 {
        (97 + i - 26) as char
    } else if i < 62 {
        (48 + i - 52) as char
    } else if i == 62 {
        '+'
    } else {
        '/'
    }
}

/// Standard base64 (RFC 4648 alphabet, `=` padding) of `s`.
pub open spec fn base64_of(s: Seq<u8>) -> Seq<char>
    decreases s.len(),
{
    if s.len() == 0 {
        Seq::empty()
    } else if s.len() == 1 {
        seq![base64_char(s[0] as int / 4), base64_char((s[0] as int % 4) * 16), '=', '=']
    } else if s.len() == 2 {
        seq![
            base64_char(s[0] as int / 4),
            base64_char((s[0] as int % 4) * 16 + s[1] as int / 16),
            base64_char((s[1] as int % 16) * 4),
            '=',
        ]
    } else {
        seq![
            base64_char(s[0] as int / 4),
            base64_char((s[0] as int % 4) * 16 + s[1] as int / 16),
            base64_char((s[1] as int % 16) * 4 + s[2] as int / 64),
            base64_char(s[2] as int % 64),
        ] + base64_of(s.subrange(3, s.len() as int))
    }
}

/// `base64::engine::general_purpose::STANDARD.encode`: standard base64 with
/// padding.
#[verifier::external_body]
fn base64_standard(bytes: &[u8]) -> (r: String)
    requires
        bytes@.len() <= usize::MAX / 2,
    ensures
        r@ == base64_of(bytes@),
{
    base64::engine::general_purpose::STANDARD.encode(bytes)
}

/// The bytes that `image::DynamicImage::write_to` writes in `format` for the
/// 8-bit image `width` x `height` with row-major `samples`, four per pixel
/// (RGBA) when `alpha` holds and three (RGB) otherwise; `None` when the encoder
/// reports an error.
pub uninterp spec fn encoding(format: ExportFormat, width: u32, height: u32, alpha: bool, samples: Seq<u8>) -> Option<Seq<u8>>;

/// `image::DynamicImage::write_to` into memory, its error turned into its
/// message (the message is not stated). The bytes are held in a `Vec`, which
/// std documents never to exceed `isize::MAX` bytes.
#[verifier::external_body]
fn encode(format: ExportFormat, width: u32, height: u32, alpha: bool, samples: &[u8]) -> (r: Result<Vec<u8>, String>)
    requires
        samples@.len() == area(width, height) * if alpha { 4int } else { 3int },
    ensures
        match encoding(format, width, height, alpha, samples@) {
            Some(bytes) => r matches Ok(v) && v@ == bytes,
            None => r is Err,
        },
        r matches Ok(v) ==> v@.len() <= isize::MAX,
{
    let image = match alpha {
        true => image::DynamicImage::ImageRgba8(image::RgbaImage::from_raw(width, height, samples.to_vec()).unwrap()),
        false => image::DynamicImage::ImageRgb8(image::RgbImage::from_raw(width, height, samples.to_vec()).unwrap()),
    };
    let format = match format {
        ExportFormat::Png => image::ImageFormat::Png,
        ExportFormat::Jpeg => image::ImageFormat::Jpeg,
        ExportFormat::WebP => image::ImageFormat::WebP,
        ExportFormat::Bmp => image::ImageFormat::Bmp,
        ExportFormat::Tiff => image::ImageFormat::Tiff,
    };
    let mut out = std::io::Cursor::new(Vec::new());
    image.write_to(&mut out, format).map_err(|e| e.to_string())?;
    Ok(out.into_inner())
}

/// The PNG bytes of an RGBA8 picture, or `None` when the encoder refuses it.
pub open spec fn png_of(p: Picture) -> Option<Seq<u8>> {
    encoding(ExportFormat::Png, p.width, p.height, true, p.pixels)
}

/// What the interface shows of a document.
#[derive(Debug)]
pub struct DocumentView {
    pub name: String,
    pub path: Option<String>,
    pub width: u32,
    pub height: u32,
    pub preview: String,
    pub adjustments: Adjustments,
    pub dirty: bool,
    pub can_undo: bool,
    pub can_redo: bool,
    pub siblings: Vec<String>,
    pub index: usize,
    pub bytes: u64,
}

/// `v` shows the document `s` with the PNG preview `png` and a file of `bytes` bytes.
pub open spec fn shows(v: DocumentView, s: DocState, png: Seq<u8>, bytes: u64) -> bool {
    let c = s.current.unwrap();
    &&& v.name@ == s.name
    &&& match v.path {
        Some(p) => s.path == Some(p@),
        None => s.path is None,
    }
    &&& v.width == c.image.width
    &&& v.height == c.image.height
    &&& v.preview@ == "data:image/png;base64,"@ + base64_of(png)
    &&& v.adjustments == c.adjustments
    &&& v.dirty == is_dirty(s)
    &&& v.can_undo == (s.undo.len() > 0)
    &&& v.can_redo == (s.redo.len() > 0)
    &&& texts(v.siblings@) == s.siblings
    &&& v.index == s.index
    &&& v.bytes == bytes
}

struct Revision {
    image: Arc<Raster>,
    adjustments: Adjustments,
    id: u64,
}

impl Revision {
    closed spec fn view(self) -> RevisionView {
        RevisionView { image: self.image@, adjustments: self.adjustments, id: self.id }
    }
}

spec fn revisions(v: Seq<Revision>) -> Seq<RevisionView> {
    v.map_values(|r: Revision| r.view())
}

/// `std::sync::Arc::clone`: another handle to the same image.
#[verifier::external_body]
fn share(image: &Arc<Raster>) -> (r: Arc<Raster>)
    ensures
        r@ == image@,
{
    Arc::clone(image)
}

/// An open image with its revision history, its file and its neighbours in
/// the folder.
pub struct Editor {
    current: Option<Revision>,
    undo: Vec<Revision>,
    redo: Vec<Revision>,
    path: Option<String>,
    name: String,
    siblings: Vec<String>,
    index: usize,
    next_id: u64,
    saved_id: u64,
}

impl Editor {
    /// The document this editor holds.
    pub closed spec fn doc(&self) -> DocState {
        DocState {
            current: match self.current {
                Some(r) => Some(r.view()),
                None => None,
            },
            undo: revisions(self.undo@),
            redo: revisions(self.redo@),
            path: match self.path {
                Some(p) => Some(p@),
                None => None,
            },
            name: self.name@,
            siblings: texts(self.siblings@),
            index: self.index,
            next_id: self.next_id,
            saved_id: self.saved_id,
        }
    }
}

impl Editor {
    #[verifier::type_invariant]
    spec fn history_in_order(self) -> bool {
        doc_wf(self.doc())
    }

    /// An editor without an image.
    pub fn new() -> (r: Editor)
        ensures
            r.doc() == empty_doc(),
    {
        let r = Editor {
            current: None,
            undo: Vec::new(),
            redo: Vec::new(),
            path: None,
            name: String::new(),
            siblings: Vec::new(),
            index: 0,
            next_id: 0,
            saved_id: 0,
        };
        assert(r.doc().undo =~= Seq::<RevisionView>::empty());
        assert(r.doc().redo =~= Seq::<RevisionView>::empty());
        assert(r.doc().siblings =~= Seq::<Seq<char>>::empty());
        assert(r.doc().name =~= Seq::<char>::empty());
        r
    }

    fn exceeds_budget(undo: &Vec<Revision>) -> (r: bool)
        ensures
            r == (history_bytes(revisions(undo@)) > HISTORY_BYTES),
    {
        let ghost u = revisions(undo@);
        let mut total: usize = 0;
        let mut i: usize = 0;
        while i < undo.len()
            invariant
                u == revisions(undo@),
                i <= undo@.len(),
                total == bytes_upto(u, i as int),
                total <= HISTORY_BYTES,
            decreases undo@.len() - i,
        {
            let item = undo[i].image.byte_len();
            assert(item == u[i as int].image.pixels.len());
            if item > HISTORY_BYTES - total {
                proof {
                    lemma_bytes_upto_monotone(u, i + 1, u.len() as int);
                }
                return true;
            }
            total = total + item;
            i = i + 1;
        }
        false
    }

    /// Drops the oldest revisions while more than one remains and the history
    /// holds more than 20 revisions or more than the byte budget.
    fn trim(undo: &mut Vec<Revision>)
        requires
            old(undo)@.len() >= 1,
        ensures
            revisions(final(undo)@) == trimmed(revisions(old(undo)@)),
    {
        let ghost target = trimmed(revisions(undo@));
        loop
            invariant
                undo@.len() >= 1,
                trimmed(revisions(undo@)) == target,
            ensures
                revisions(undo@) == target,
            decreases undo@.len(),
        {
            let n = undo.len();
            if n <= 1 {
                break;
            }
            if n <= HISTORY_REVISIONS && !Self::exceeds_budget(undo) {
                break;
            }
            let ghost before = undo@;
            let _ = undo.remove(0);
            assert(revisions(undo@) =~= revisions(before).drop_first());
        }
    }

    /// Makes a new revision with `image` and `adjustments` current; the old one
    /// goes to undo history, redo history is cleared and undo history trimmed.
    fn commit(&mut self, image: Arc<Raster>, adjustments: Adjustments) -> (r: Result<(), String>)
        requires
            old(self).doc().next_id < u64::MAX,
            settings_valid(adjustments),
        ensures
            old(self).doc().current is None ==> fails_with(r, "Open an image first."@) && final(self).doc() == old(self).doc(),
            old(self).doc().current is Some ==> r is Ok && final(self).doc() == committed(old(self).doc(), image@, adjustments),
    {
        proof {
            use_type_invariant(&*self);
        }
        if self.current.is_none() {
            return Err(owned("Open an image first."));
        }
        let ghost s = self.doc();
        let mut e = Editor::new();
        std::mem::swap(&mut e, self);
        proof {
            use_type_invariant(&e);
        }
        let Editor { current, mut undo, redo, path, name, siblings, index, next_id, saved_id } = e;
        let old_current = current.unwrap();
        let ghost pushed = revisions(undo@).push(old_current.view());
        undo.push(old_current);
        assert(revisions(undo@) =~= pushed);
        Self::trim(&mut undo);
        let id = next_id + 1;
        let rev = Revision { image, adjustments, id };
        proof {
            lemma_trimmed(pushed);
            let t = trimmed(pushed);
            let k = pushed.len() - t.len();
            assert forall|i: int, j: int| 0 <= i < j < t.len() implies (#[trigger] t[i]).id < (#[trigger] t[j]).id by {
                assert(t[i] == pushed[k + i]);
                assert(t[j] == pushed[k + j]);
                if k + j < s.undo.len() {
                    assert(pushed[k + j] == s.undo[k + j]);
                }
            }
            assert forall|i: int| 0 <= i < t.len() implies 0 < (#[trigger] t[i]).id < id by {
                assert(t[i] == pushed[k + i]);
            }
            assert forall|i: int| 0 <= i < t.len() implies settings_valid(#[trigger] t[i].adjustments) by {
                assert(t[i] == pushed[k + i]);
                if k + i < s.undo.len() {
                    assert(pushed[k + i] == s.undo[k + i]);
                }
            }
        }
        *self = Editor {
            current: Some(rev),
            undo,
            redo: Vec::new(),
            path,
            name,
            siblings,
            index,
            next_id: id,
            saved_id,
        };
        assert(self.doc().redo =~= Seq::<RevisionView>::empty());
        Ok(())
    }

    fn step_back(&mut self)
        ensures
            final(self).doc() == undone(old(self).doc()),
    {
        proof {
            use_type_invariant(&*self);
        }
        if self.undo.len() == 0 {
            return;
        }
        let ghost s = self.doc();
        let mut e = Editor::new();
        std::mem::swap(&mut e, self);
        proof {
            use_type_invariant(&e);
        }
        let Editor { current, mut undo, mut redo, path, name, siblings, index, next_id, saved_id } = e;
        let ghost u = undo@;
        let ghost rd = redo@;
        let previous = undo.pop().unwrap();
        let old_current = current.unwrap();
        redo.push(old_current);
        assert(revisions(undo@) =~= s.undo.drop_last());
        assert(revisions(redo@) =~= s.redo.push(s.current.unwrap()));
        *self = Editor {
            current: Some(previous),
            undo,
            redo,
            path,
            name,
            siblings,
            index,
            next_id,
            saved_id,
        };
    }

    fn step_forward(&mut self)
        ensures
            final(self).doc() == redone(old(self).doc()),
    {
        proof {
            use_type_invariant(&*self);
        }
        if self.redo.len() == 0 {
            return;
        }
        let ghost s = self.doc();
        let mut e = Editor::new();
        std::mem::swap(&mut e, self);
        proof {
            use_type_invariant(&e);
        }
        let Editor { current, mut undo, mut redo, path, name, siblings, index, next_id, saved_id } = e;
        let next = redo.pop().unwrap();
        let old_current = current.unwrap();
        undo.push(old_current);
        assert(revisions(redo@) =~= s.redo.drop_last());
        assert(revisions(undo@) =~= s.undo.push(s.current.unwrap()));
        *self = Editor {
            current: Some(next),
            undo,
            redo,
            path,
            name,
            siblings,
            index,
            next_id,
            saved_id,
        };
    }

    fn reset(&mut self, image: Raster, path: Option<String>)
        requires
            old(self).doc().next_id < u64::MAX,
        ensures
            final(self).doc() == replaced(
                old(self).doc(),
                image@,
                match path {
                    Some(p) => Some(p@),
                    None => None,
                },
            ),
    {
        proof {
            use_type_invariant(&*self);
        }
        let name = match &path {
            Some(p) => match file_name_of(p.as_str()) {
                Some(n) => n,
                None => owned("Clipboard image"),
            },
            None => owned("Clipboard image"),
        };
        let id = self.next_id + 1;
        let saved_id = if path.is_some() {
            id
        } else {
            0
        };
        *self = Editor {
            current: Some(Revision { image: Arc::new(image), adjustments: Adjustments::default(), id }),
            undo: Vec::new(),
            redo: Vec::new(),
            path,
            name,
            siblings: Vec::new(),
            index: 0,
            next_id: id,
            saved_id,
        };
        assert(self.doc().undo =~= Seq::<RevisionView>::empty());
        assert(self.doc().redo =~= Seq::<RevisionView>::empty());
        assert(self.doc().siblings =~= Seq::<Seq<char>>::empty());
    }

    /// Refuses to replace a document with unexported changes unless they are
    /// to be discarded.
    pub fn may_open(&self, discard: bool) -> (r: Result<(), String>)
        ensures
            r is Err <==> is_dirty(self.doc()) && !discard,
            r is Err ==> fails_with(r, "Export or discard your changes before opening another image."@),
    {
        if self.dirty() && !discard {
            return Err(owned("Export or discard your changes before opening another image."));
        }
        Ok(())
    }

    /// Opens a decoded image read from `path`, whose folder holds the files
    /// `entries`. A document with unexported changes is only replaced when
    /// `discard` is set; the image must be positive and at most 80 megapixels.
    /// The document is named after the path's file name; its neighbours are the
    /// supported images of the folder, with `path`, in folder order.
    pub fn open(&mut self, image: Raster, path: String, entries: &Vec<String>, discard: bool) -> (r: Result<(), String>)
        requires
            old(self).doc().next_id < u64::MAX,
        ensures
            is_dirty(old(self).doc()) && !discard ==> fails_with(
                r,
                "Export or discard your changes before opening another image."@,
            ) && final(self).doc() == old(self).doc(),
            !(is_dirty(old(self).doc()) && !discard) && !dimensions_ok(image@.width, image@.height) ==> fails_with(
                r,
                "Dimensions must be positive and no larger than 80 megapixels."@,
            ) && final(self).doc() == old(self).doc(),
            !(is_dirty(old(self).doc()) && !discard) && dimensions_ok(image@.width, image@.height) ==> r is Ok
                && final(self).doc() == (DocState {
                siblings: final(self).doc().siblings,
                index: final(self).doc().index,
                ..replaced(old(self).doc(), image@, Some(path@))
            }) && lists_folder(final(self).doc().siblings, final(self).doc().index as int, texts(entries@), path@),
    {
        if self.dirty() && !discard {
            return Err(owned("Export or discard your changes before opening another image."));
        }
        dimensions(image.width(), image.height())?;
        let (siblings, index) = image_siblings(entries, path.as_str());
        self.reset(image, Some(path));
        proof {
            use_type_invariant(&*self);
        }
        let mut e = Editor::new();
        std::mem::swap(&mut e, self);
        proof {
            use_type_invariant(&e);
        }
        let Editor { current, undo, redo, path, name, siblings: _, index: _, next_id, saved_id } = e;
        *self = Editor { current, undo, redo, path, name, siblings, index, next_id, saved_id };
        Ok(())
    }

    /// Replaces the document with an image from the clipboard. A document with
    /// unexported changes is only replaced when `discard` is set; the image must
    /// be positive and at most 80 megapixels.
    pub fn paste(&mut self, image: Raster, discard: bool) -> (r: Result<(), String>)
        requires
            old(self).doc().next_id < u64::MAX,
        ensures
            is_dirty(old(self).doc()) && !discard ==> fails_with(r, "Export or discard your changes first."@)
                && final(self).doc() == old(self).doc(),
            !(is_dirty(old(self).doc()) && !discard) && !dimensions_ok(image@.width, image@.height) ==> fails_with(
                r,
                "Dimensions must be positive and no larger than 80 megapixels."@,
            ) && final(self).doc() == old(self).doc(),
            !(is_dirty(old(self).doc()) && !discard) && dimensions_ok(image@.width, image@.height) ==> r is Ok
                && final(self).doc() == replaced(old(self).doc(), image@, None),
    {
        if self.dirty() && !discard {
            return Err(owned("Export or discard your changes first."));
        }
        dimensions(image.width(), image.height())?;
        self.reset(image, None);
        Ok(())
    }

    /// The current image and its slider settings.
    pub fn current(&self) -> (r: Result<(&Raster, Adjustments), String>)
        ensures
            self.doc().current is None ==> fails_with(r, "Open an image first."@),
            self.doc().current matches Some(c) ==> r matches Ok((img, a)) && img@ == c.image && a
                == c.adjustments && settings_valid(a),
    {
        proof {
            use_type_invariant(self);
        }
        match &self.current {
            Some(rev) => Ok((&*rev.image, rev.adjustments)),
            None => Err(owned("Open an image first.")),
        }
    }

    /// Changes the slider settings of the document. Settings out of range are
    /// refused; settings equal to the current ones change nothing; others make a
    /// new revision that shares the current pixels.
    pub fn adjust(&mut self, value: Adjustments) -> (r: Result<(), String>)
        requires
            old(self).doc().next_id < u64::MAX,
        ensures
            !sliders_in_range(value) ==> fails_with(r, "Adjustment must be between -1 and 1."@)
                && final(self).doc() == old(self).doc(),
            sliders_in_range(value) && !gamma_range(value.gamma) ==> fails_with(
                r,
                "Gamma must be between 0.1 and 3."@,
            ) && final(self).doc() == old(self).doc(),
            sliders_in_range(value) && gamma_range(value.gamma) ==> match old(self).doc().current {
                None => fails_with(r, "Open an image first."@) && final(self).doc() == old(self).doc(),
                Some(c) => r is Ok && if same_settings(c.adjustments, value) {
                    final(self).doc() == old(self).doc()
                } else {
                    final(self).doc() == committed(old(self).doc(), c.image, value) && is_dirty(final(self).doc())
                },
            },
    {
        proof {
            use_type_invariant(&*self);
        }
        value.validate()?;
        let image = match &self.current {
            None => {
                return Err(owned("Open an image first."));
            },
            Some(rev) => {
                if rev.adjustments.same_as(&value) {
                    return Ok(());
                }
                share(&rev.image)
            },
        };
        self.commit(image, value)
    }

    /// Undoes, redoes, or applies a pixel operation to `rendered`, the current
    /// image as displayed with its sliders applied; the result becomes a new
    /// revision with neutral sliders.
    pub fn edit(&mut self, action: &str, args: &[u32], rendered: Option<Raster>) -> (r: Result<(), String>)
        requires
            action@ != "undo"@ && action@ != "redo"@ ==> old(self).doc().next_id < u64::MAX,
            rendered matches Some(img) ==> renders(old(self).doc(), img@),
        ensures
            (action@ == "undo"@ || action@ == "redo"@) && old(self).doc().current is None ==> fails_with(
                r,
                "Open an image first."@,
            ) && final(self).doc() == old(self).doc(),
            action@ == "undo"@ && old(self).doc().current is Some ==> r is Ok && final(self).doc() == undone(
                old(self).doc(),
            ),
            action@ == "redo"@ && old(self).doc().current is Some ==> r is Ok && final(self).doc() == redone(
                old(self).doc(),
            ),
            action@ != "undo"@ && action@ != "redo"@ ==> match (old(self).doc().current, rendered) {
                (Some(_), Some(img)) => match pixel_op_error(action@, args@, img@) {
                    Some(msg) => fails_with(r, msg) && final(self).doc() == old(self).doc(),
                    None => r is Ok && pixel_op_result(action@, args@, img@, final(self).doc().current.unwrap().image)
                        && final(self).doc() == committed(old(self).doc(), final(self).doc().current.unwrap().image, neutral())
                        && is_dirty(final(self).doc()),
                },
                _ => fails_with(r, "Open an image first."@) && final(self).doc() == old(self).doc(),
            },
    {
        proof {
            lemma_action_names_distinct();
            use_type_invariant(&*self);
        }
        if (is_action(action, "undo") || is_action(action, "redo")) && self.current.is_none() {
            return Err(owned("Open an image first."));
        }
        if is_action(action, "undo") {
            self.step_back();
            return Ok(());
        }
        if is_action(action, "redo") {
            self.step_forward();
            return Ok(());
        }
        if self.current.is_none() {
            return Err(owned("Open an image first."));
        }
        let image = match rendered {
            Some(img) => img,
            None => {
                return Err(owned("Open an image first."));
            },
        };
        let out = apply_pixel_op(action, args, &image)?;
        self.commit(Arc::new(out), Adjustments::default())
    }

    /// What the interface shows: the document's name, path, size, settings and
    /// history state, its neighbours, the PNG encoding of `rendered` (the
    /// current image as displayed) as a data URL, and the size in `bytes` of
    /// its file.
    pub fn view(&self, rendered: &Raster, bytes: u64) -> (r: Result<DocumentView, String>)
        requires
            renders(self.doc(), rendered@),
        ensures
            self.doc().current is None ==> fails_with(r, "Open an image first."@),
            self.doc().current is Some && png_of(rendered@) is None ==> r is Err,
            self.doc().current is Some ==> (png_of(rendered@) matches Some(png) ==> (r matches Ok(v)
                && shows(v, self.doc(), png, bytes))),
            r matches Ok(v) ==> v.name@ == display_name(self.doc().path) && settings_valid(v.adjustments)
                && v.width == rendered@.width && v.height == rendered@.height,
    {
        proof {
            use_type_invariant(self);
        }
        let rev = match &self.current {
            Some(rev) => rev,
            None => {
                return Err(owned("Open an image first."));
            },
        };
        rendered.check_well_sized();
        let png = encode(ExportFormat::Png, rendered.width(), rendered.height(), true, rendered.as_bytes())?;
        assert(png@.len() <= usize::MAX / 2);
        let encoded = base64_standard(png.as_slice());
        let preview = joined("data:image/png;base64,", encoded.as_str());
        let path = match &self.path {
            Some(p) => Some(owned(p.as_str())),
            None => None,
        };
        let siblings = copy_strings(&self.siblings);
        let v = DocumentView {
            name: owned(self.name.as_str()),
            path,
            width: rev.image.width(),
            height: rev.image.height(),
            preview,
            adjustments: rev.adjustments,
            dirty: self.dirty(),
            can_undo: self.undo.len() > 0,
            can_redo: self.redo.len() > 0,
            siblings,
            index: self.index,
            bytes,
        };
        assert(texts(v.siblings@) =~= self.doc().siblings);
        Ok(v)
    }

    /// Marks the current revision as exported, after it has been written.
    pub fn mark_exported(&mut self) -> (r: Result<(), String>)
        ensures
            old(self).doc().current is None ==> fails_with(r, "Open an image first."@) && final(self).doc()
                == old(self).doc(),
            old(self).doc().current is Some ==> r is Ok && final(self).doc() == exported(old(self).doc()),
            old(self).doc().current is Some ==> !is_dirty(final(self).doc()),
    {
        proof {
            use_type_invariant(&*self);
        }
        let id = match &self.current {
            Some(rev) => rev.id,
            None => {
                return Err(owned("Open an image first."));
            },
        };
        self.saved_id = id;
        Ok(())
    }

    /// The number given to the newest revision so far; every change takes the
    /// next one, so none can follow `u64::MAX`.
    pub fn revisions_numbered(&self) -> (r: u64)
        ensures
            r == self.doc().next_id,
    {
        self.next_id
    }

    /// Whether the current revision has changes that were not exported.
    pub fn dirty(&self) -> (r: bool)
        ensures
            r == is_dirty(self.doc()),
    {
        match &self.current {
            Some(r) => r.id != self.saved_id,
            None => false,
        }
    }
}

} // verus!
