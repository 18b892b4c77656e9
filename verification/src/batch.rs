//! Batch conversion: option checks, output names that never collide, the
//! image pipeline applied to every input, and the running tally.
use vstd::prelude::*;
use crate::editor::{dimensions, dimensions_ok};
use crate::image_ops::{auto_adjust, is_auto_adjusted, resize_image};
use crate::pixels::{
    area, fits_closely, fits_proportionally, fitted_size, moderate_sides, is_grayscaled, is_inverted, is_rotated180, is_rotated270,
    is_rotated90, keeps_flat_channels, sample, well_sized, Picture, Raster,
};
use crate::text::{chars_of, fails_with, joined, lowercase, owned, same_text, text_less, to_lowercase};

verus! {

/// What a batch conversion is asked to do.
#[derive(Debug)]
pub struct BatchOptions {
    pub files: Vec<String>,
    pub directory: String,
    pub format: String,
    pub resize: Option<[u32; 2]>,
    pub keep_aspect: bool,
    pub rotation: u16,
    pub grayscale: bool,
    pub invert: bool,
    pub auto: bool,
}

/// How far a batch conversion has got.
#[derive(Debug)]
pub struct BatchResult {
    pub completed: usize,
    pub total: usize,
    pub written: usize,
    pub errors: Vec<String>,
}

/// The file extension of a batch output format, or `None` for an unsupported one.
pub open spec fn batch_extension(format: Seq<char>) -> Option<Seq<char>> {
    if format == "png"@ || format == "jpg"@ || format == "webp"@ || format == "bmp"@ || format
        == "tiff"@ {
        Some(format)
    } else {
        None
    }
}

/// Why a batch with `options` cannot start, in the order the checks are made,
/// or the output extension when it can.
pub open spec fn batch_check(options: BatchOptions, directory_exists: bool) -> Result<Seq<char>, Seq<char>> {
    if options.files@.len() == 0 {
        Err("Add at least one image."@)
    } else if !directory_exists {
        Err("Choose an existing output folder."@)
    } else if !(options.rotation == 0 || options.rotation == 90 || options.rotation == 180
        || options.rotation == 270) {
        Err("Invalid rotation."@)
    } else if options.resize matches Some(s) && !dimensions_ok(s[0], s[1]) {
        Err("Dimensions must be positive and no larger than 80 megapixels."@)
    } else {
        match batch_extension(options.format@) {
            Some(ext) => Ok(ext),
            None => Err("Unsupported batch format."@),
        }
    }
}

/// `q` is `p` after the resize a batch asks for: none, to fit within the size
/// keeping proportions, or to exactly the size.
pub open spec fn batch_resized(resize: Option<[u32; 2]>, keep_aspect: bool, p: Picture, q: Picture) -> bool {
    match resize {
        None => q == p,
        Some(s) => {
            &&& well_sized(q)
            &&& if keep_aspect {
                &&& (q.width, q.height) == fitted_size(p.width, p.height, s[0], s[1])
                &&& 1 <= q.width <= s[0] && 1 <= q.height <= s[1]
                &&& fits_proportionally(p.width, p.height, s[0], s[1], q.width, q.height)
                &&& moderate_sides(p.width, p.height, s[0], s[1]) ==> fits_closely(p.width, p.height, s[0], s[1], q.width, q.height)
            } else {
                q.width == s[0] && q.height == s[1]
            }
            &&& s[0] == p.width && s[1] == p.height ==> q == p
            &&& keeps_flat_channels(p, q)
        },
    }
}

/// `q` is `p` turned by `rotation` degrees clockwise.
pub open spec fn batch_rotated(rotation: u16, p: Picture, q: Picture) -> bool {
    if rotation == 90 {
        is_rotated90(p, q)
    } else if rotation == 180 {
        is_rotated180(p, q)
    } else if rotation == 270 {
        is_rotated270(p, q)
    } else {
        q == p
    }
}

/// `q` is the grayscale version of `p` when `on`, else `p` itself.
pub open spec fn gray_step(on: bool, p: Picture, q: Picture) -> bool {
    if on {
        is_grayscaled(p, q)
    } else {
        q == p
    }
}

/// `q` is `p` inverted when `on`, else `p` itself.
pub open spec fn invert_step(on: bool, p: Picture, q: Picture) -> bool {
    if on {
        is_inverted(p, q)
    } else {
        q == p
    }
}

/// `q` is `p` after automatic levels when `on`, else `p` itself.
pub open spec fn auto_step(on: bool, p: Picture, q: Picture) -> bool {
    if on {
        is_auto_adjusted(p, q)
    } else {
        q == p
    }
}

/// `q` is `p` after the batch steps in order: resize, rotation, grayscale,
/// inversion and automatic levels, each only when asked for.
pub open spec fn batch_processed(run: BatchPlan, p: Picture, q: Picture) -> bool {
    exists|a: Picture, b: Picture, c: Picture, d: Picture|
        #![trigger batch_resized(run.resize, run.keep_aspect, p, a), batch_rotated(run.rotation, a, b), gray_step(run.grayscale, b, c), invert_step(run.invert, c, d)]
        {
            &&& batch_resized(run.resize, run.keep_aspect, p, a)
            &&& batch_rotated(run.rotation, a, b)
            &&& gray_step(run.grayscale, b, c)
            &&& invert_step(run.invert, c, d)
            &&& auto_step(run.auto, d, q)
        }
}

/// The image steps of a batch.
pub struct BatchPlan {
    pub resize: Option<[u32; 2]>,
    pub keep_aspect: bool,
    pub rotation: u16,
    pub grayscale: bool,
    pub invert: bool,
    pub auto: bool,
}

/// A batch conversion under way.
pub struct BatchRun {
    plan: BatchPlan,
    ext: String,
    seen: Vec<Vec<char>>,
    result: BatchResult,
}

fn is_format(format: &str, name: &str) -> (r: bool)
    ensures
        r == (format@ == name@),
{
    same_text(format, name)
}

impl BatchRun {
    #[verifier::type_invariant]
    spec fn tally_adds_up(self) -> bool {
        &&& self.result.written + self.result.errors@.len() == self.result.completed
        &&& self.result.completed <= self.result.total
        &&& (self.plan.resize matches Some(s) ==> dimensions_ok(s[0], s[1]))
    }

    /// The image steps of the batch.
    pub closed spec fn plan(&self) -> BatchPlan {
        self.plan
    }

    /// The output extension.
    pub closed spec fn extension(&self) -> Seq<char> {
        self.ext@
    }

    /// The lowercase output paths already claimed.
    pub closed spec fn claimed(&self) -> Set<Seq<char>> {
        Set::new(|x: Seq<char>| self.seen@.map_values(|k: Vec<char>| k@).contains(x))
    }

    /// The tally so far.
    pub closed spec fn tally(&self) -> (usize, usize, usize, Seq<Seq<char>>) {
        (
            self.result.completed,
            self.result.total,
            self.result.written,
            self.result.errors@.map_values(|e: String| e@),
        )
    }

    fn placeholder() -> (r: BatchRun)
        ensures
            r.result.total == 0,
    {
        BatchRun {
            plan: BatchPlan {
                resize: None,
                keep_aspect: false,
                rotation: 0,
                grayscale: false,
                invert: false,
                auto: false,
            },
            ext: String::new(),
            seen: Vec::new(),
            result: BatchResult { completed: 0, total: 0, written: 0, errors: Vec::new() },
        }
    }

    /// Checks the options of a batch, given whether its output folder exists,
    /// and starts it with nothing done and nothing claimed.
    pub fn start(options: &BatchOptions, directory_exists: bool) -> (r: Result<BatchRun, String>)
        ensures
            match batch_check(*options, directory_exists) {
                Err(msg) => fails_with(r, msg),
                Ok(ext) => r matches Ok(run) && run.extension() == ext && run.claimed().is_empty()
                    && run.tally().0 == 0 && run.tally().1 == options.files@.len() && run.tally().2 == 0
                    && run.tally().3.len() == 0 && run.plan() == (BatchPlan {
                    resize: options.resize,
                    keep_aspect: options.keep_aspect,
                    rotation: options.rotation,
                    grayscale: options.grayscale,
                    invert: options.invert,
                    auto: options.auto,
                }),
            },
    {
        proof {
            reveal_strlit("png");
            reveal_strlit("jpg");
            reveal_strlit("webp");
            reveal_strlit("bmp");
            reveal_strlit("tiff");
        }
        if options.files.len() == 0 {
            return Err(owned("Add at least one image."));
        }
        if !directory_exists {
            return Err(owned("Choose an existing output folder."));
        }
        if !(options.rotation == 0 || options.rotation == 90 || options.rotation == 180
            || options.rotation == 270) {
            return Err(owned("Invalid rotation."));
        }
        if let Some(s) = options.resize {
            dimensions(s[0], s[1])?;
        }
        let f = options.format.as_str();
        if !(is_format(f, "png") || is_format(f, "jpg") || is_format(f, "webp") || is_format(f, "bmp")
            || is_format(f, "tiff")) {
            return Err(owned("Unsupported batch format."));
        }
        let run = BatchRun {
            plan: BatchPlan {
                resize: options.resize,
                keep_aspect: options.keep_aspect,
                rotation: options.rotation,
                grayscale: options.grayscale,
                invert: options.invert,
                auto: options.auto,
            },
            ext: owned(f),
            seen: Vec::new(),
            result: BatchResult { completed: 0, total: options.files.len(), written: 0, errors: Vec::new() },
        };
        assert(run.claimed() =~= Set::<Seq<char>>::empty());
        assert(run.result.errors@.map_values(|e: String| e@) =~= Seq::<Seq<char>>::empty());
        Ok(run)
    }

    /// The output file name for an input with file stem `stem`.
    pub fn output_name(&self, stem: &str) -> (r: String)
        ensures
            r@ == stem@ + "."@ + self.extension(),
    {
        let with_dot = joined(stem, ".");
        joined(with_dot.as_str(), self.ext.as_str())
    }

    /// Claims the output path `output` for one input. The claim fails when the
    /// path, compared case-insensitively, was already claimed in this batch or a
    /// file already exists there; either way the path counts as claimed.
    pub fn claim(&mut self, output: &str, exists: bool) -> (r: bool)
        ensures
            r == (!old(self).claimed().contains(lowercase(output@)) && !exists),
            final(self).claimed() == old(self).claimed().insert(lowercase(output@)),
            final(self).tally() == old(self).tally(),
            final(self).plan() == old(self).plan(),
            final(self).extension() == old(self).extension(),
    {
        proof {
            use_type_invariant(&*self);
        }
        let lower = to_lowercase(output);
        let key = chars_of(lower.as_str());
        let ghost keys = self.seen@.map_values(|k: Vec<char>| k@);
        let mut i: usize = 0;
        let mut found = false;
        while i < self.seen.len()
            invariant
                keys == self.seen@.map_values(|k: Vec<char>| k@),
                i <= self.seen@.len(),
                found == (exists|j: int| 0 <= j < i && keys[j] == key@),
            decreases self.seen@.len() - i,
        {
            if !text_less(&self.seen[i], &key) && !text_less(&key, &self.seen[i]) {
                proof {
                    crate::text::lemma_text_lt_total(self.seen@[i as int]@, key@);
                    assert(keys[i as int] == key@);
                }
                found = true;
            } else {
                proof {
                    crate::text::lemma_text_lt_irreflexive(key@);
                }
            }
            i = i + 1;
        }
        proof {
            assert(found == keys.contains(key@));
        }
        if !found {
            let mut run = BatchRun::placeholder();
            std::mem::swap(&mut run, self);
            proof {
                use_type_invariant(&run);
            }
            let BatchRun { plan, ext, mut seen, result } = run;
            seen.push(key);
            *self = BatchRun { plan, ext, seen, result };
            proof {
                let pushed = keys.push(key@);
                assert(self.seen@.map_values(|k: Vec<char>| k@) =~= pushed);
                assert forall|x: Seq<char>| pushed.contains(x) <==> (keys.contains(x) || x == key@) by {
                    if pushed.contains(x) {
                        let j = choose|j: int| 0 <= j < pushed.len() && pushed[j] == x;
                        if j < keys.len() {
                            assert(keys[j] == x);
                        }
                    }
                    if keys.contains(x) {
                        let j = choose|j: int| 0 <= j < keys.len() && keys[j] == x;
                        assert(pushed[j] == x);
                    }
                    if x == key@ {
                        assert(pushed[keys.len() as int] == x);
                    }
                }
                assert(self.claimed() =~= old(self).claimed().insert(lowercase(output@)));
            }
        } else {
            proof {
                assert(self.claimed() =~= old(self).claimed().insert(lowercase(output@)));
            }
        }
        !found && !exists
    }

    /// The message for an input whose output path is taken.
    pub fn conflict_message(input: &str) -> (r: String)
        ensures
            r@ == input@ + ": output exists or conflicts with another input; skipped"@,
    {
        joined(input, ": output exists or conflicts with another input; skipped")
    }

    /// Records the outcome for the input `input`: a written file, or an error
    /// reported after the input's name.
    pub fn record(&mut self, input: &str, outcome: Result<(), String>)
        requires
            old(self).tally().0 < old(self).tally().1,
        ensures
            final(self).tally().0 == old(self).tally().0 + 1,
            final(self).tally().1 == old(self).tally().1,
            outcome is Ok ==> final(self).tally().2 == old(self).tally().2 + 1 && final(self).tally().3
                == old(self).tally().3,
            outcome matches Err(e) ==> final(self).tally().2 == old(self).tally().2
                && final(self).tally().3 == old(self).tally().3.push(input@ + ": "@ + e@),
            final(self).claimed() == old(self).claimed(),
            final(self).plan() == old(self).plan(),
            final(self).extension() == old(self).extension(),
    {
        proof {
            use_type_invariant(&*self);
        }
        let ghost errs = self.result.errors@;
        let mut run = BatchRun::placeholder();
        std::mem::swap(&mut run, self);
        proof {
            use_type_invariant(&run);
        }
        let BatchRun { plan, ext, seen, result } = run;
        let BatchResult { completed, total, mut written, mut errors } = result;
        match outcome {
            Ok(()) => {
                written = written + 1;
            },
            Err(e) => {
                let prefix = joined(input, ": ");
                let msg = joined(prefix.as_str(), e.as_str());
                errors.push(msg);
                assert(errors@.map_values(|e: String| e@) =~= errs.map_values(|e: String| e@).push(
                    input@ + ": "@ + e@,
                ));
            },
        }
        *self = BatchRun {
            plan,
            ext,
            seen,
            result: BatchResult { completed: completed + 1, total, written, errors },
        };
    }

    /// The tally so far.
    pub fn result(&self) -> (r: &BatchResult)
        ensures
            r.completed == self.tally().0,
            r.total == self.tally().1,
            r.written == self.tally().2,
            r.errors@.map_values(|e: String| e@) == self.tally().3,
    {
        &self.result
    }

    /// Ends the batch with its tally; every input counts once, as written or as
    /// an error.
    pub fn finish(self) -> (r: BatchResult)
        ensures
            r.completed == self.tally().0,
            r.total == self.tally().1,
            r.written == self.tally().2,
            r.errors@.map_values(|e: String| e@) == self.tally().3,
            r.written + r.errors@.len() == r.completed,
            r.completed <= r.total,
    {
        proof {
            use_type_invariant(&self);
        }
        self.result
    }

    /// Applies the batch steps to a decoded image: resize, rotation, grayscale,
    /// inversion and automatic levels, each only when asked for.
    pub fn process(&self, image: Raster) -> (r: Raster)
        requires
            image@.width > 0,
            image@.height > 0,
        ensures
            batch_processed(self.plan(), image@, r@),
    {
        proof {
            use_type_invariant(self);
        }
        let p = self.plan.resize;
        let a = match p {
            None => image,
            Some(s) => {
                proof {
                    assert(area(s[0], s[1]) * 4 <= isize::MAX) by (nonlinear_arith)
                        requires
                            s[0] as int * s[1] as int <= 80_000_000,
                            isize::MAX >= 0x7FFF_FFFF,
                    ;
                }
                if self.plan.keep_aspect {
                    image.resize(s[0], s[1])
                } else {
                    resize_image(&image, s[0], s[1])
                }
            },
        };
        let ghost av = a@;
        let b = if self.plan.rotation == 90 {
            a.rotate90()
        } else if self.plan.rotation == 180 {
            a.rotate180()
        } else if self.plan.rotation == 270 {
            a.rotate270()
        } else {
            a
        };
        let ghost bv = b@;
        let c = if self.plan.grayscale {
            b.grayscale()
        } else {
            b
        };
        let ghost cv = c@;
        let mut d = c;
        if self.plan.invert {
            d.invert();
        }
        let ghost dv = d@;
        let q = if self.plan.auto {
            auto_adjust(&d)
        } else {
            d
        };
        proof {
            assert(batch_resized(self.plan.resize, self.plan.keep_aspect, image@, av));
            assert(batch_rotated(self.plan.rotation, av, bv));
            assert(gray_step(self.plan.grayscale, bv, cv));
            assert(invert_step(self.plan.invert, cv, dv));
            assert(auto_step(self.plan.auto, dv, q@));
            assert(batch_processed(self.plan(), image@, q@));
        }
        q
    }
}

/// A batch without resizing turns every image by its rotation in clockwise
/// degrees: 90 is a quarter turn clockwise, 180 half a turn, 270 a quarter turn
/// counter-clockwise, anything else none; the colour steps keep the size, and
/// without them every sample lands where the turn puts it.
pub proof fn law_batch_turns(plan: BatchPlan, p: Picture, q: Picture)
    requires
        batch_processed(plan, p, q),
        plan.resize is None,
    ensures
        plan.rotation == 90 || plan.rotation == 270 ==> q.width == p.height && q.height == p.width,
        !(plan.rotation == 90 || plan.rotation == 270) ==> q.width == p.width && q.height == p.height,
        !plan.grayscale && !plan.invert && !plan.auto ==> {
            &&& plan.rotation == 90 ==> forall|x: int, y: int, c: int|
                0 <= x < q.width && 0 <= y < q.height && 0 <= c < 4 ==> #[trigger] q.pixels[(y * q.width + x) * 4
                    + c] == p.pixels[((p.height - 1 - x) * p.width + y) * 4 + c]
            &&& plan.rotation == 180 ==> forall|x: int, y: int, c: int|
                0 <= x < q.width && 0 <= y < q.height && 0 <= c < 4 ==> #[trigger] q.pixels[(y * q.width + x) * 4
                    + c] == p.pixels[((p.height - 1 - y) * p.width + (p.width - 1 - x)) * 4 + c]
            &&& plan.rotation == 270 ==> forall|x: int, y: int, c: int|
                0 <= x < q.width && 0 <= y < q.height && 0 <= c < 4 ==> #[trigger] q.pixels[(y * q.width + x) * 4
                    + c] == p.pixels[(x * p.width + (p.width - 1 - y)) * 4 + c]
            &&& !(plan.rotation == 90 || plan.rotation == 180 || plan.rotation == 270) ==> q == p
        },
{
    let (a, b, c, d) = choose|a: Picture, b: Picture, c: Picture, d: Picture|
        #![trigger batch_resized(plan.resize, plan.keep_aspect, p, a), batch_rotated(plan.rotation, a, b), gray_step(plan.grayscale, b, c), invert_step(plan.invert, c, d)]
        {
            &&& batch_resized(plan.resize, plan.keep_aspect, p, a)
            &&& batch_rotated(plan.rotation, a, b)
            &&& gray_step(plan.grayscale, b, c)
            &&& invert_step(plan.invert, c, d)
            &&& auto_step(plan.auto, d, q)
        };
    assert(a == p);
    if plan.rotation == 90 {
        assert forall|x: int, y: int, c: int|
            0 <= x < b.width && 0 <= y < b.height && 0 <= c < 4 implies #[trigger] b.pixels[(y * b.width + x) * 4 + c]
                == p.pixels[((p.height - 1 - x) * p.width + y) * 4 + c] by {
            assert(sample(b, x, y, c) == sample(p, y, p.height - 1 - x, c));
        }
    } else if plan.rotation == 180 {
        assert forall|x: int, y: int, c: int|
            0 <= x < b.width && 0 <= y < b.height && 0 <= c < 4 implies #[trigger] b.pixels[(y * b.width + x) * 4 + c]
                == p.pixels[((p.height - 1 - y) * p.width + (p.width - 1 - x)) * 4 + c] by {
            assert(sample(b, x, y, c) == sample(p, p.width - 1 - x, p.height - 1 - y, c));
        }
    } else if plan.rotation == 270 {
        assert forall|x: int, y: int, c: int|
            0 <= x < b.width && 0 <= y < b.height && 0 <= c < 4 implies #[trigger] b.pixels[(y * b.width + x) * 4 + c]
                == p.pixels[(x * p.width + (p.width - 1 - y)) * 4 + c] by {
            assert(sample(b, x, y, c) == sample(p, p.width - 1 - y, x, c));
        }
    }
}

/// Two inputs whose output paths differ only in case never both get a claim:
/// once a path is claimed, every later claim of it fails.
pub proof fn law_claims_unique(claimed: Set<Seq<char>>, first: Seq<char>, second: Seq<char>)
    requires
        lowercase(first) == lowercase(second),
    ensures
        claimed.insert(lowercase(first)).contains(lowercase(second)),
{
}

} // verus!
