//! Supported image types and the order of the images of a folder.
use vstd::prelude::*;
use crate::text::{
    chars_of, lemma_text_lt_irreflexive, lemma_text_lt_total,
    lemma_text_lt_transitive, lowercase, same_text, text_less, text_lt, texts, to_lowercase,
};

verus! {

/// The extension that `std::path::Path::extension` finds in the path `path`,
/// read with the path syntax of the platform the crate is built for.
pub uninterp spec fn path_extension(path: Seq<char>) -> Option<Seq<char>>;

/// `std::path::Path::extension` of a path given as text.
#[verifier::external_body]
fn extension_of(path: &str) -> (r: Option<String>)
    ensures
        match r {
            Some(e) => path_extension(path@) == Some(e@),
            None => path_extension(path@) is None,
        },
{
    std::path::Path::new(path).extension().and_then(|e| e.to_str()).map(|e| e.to_string())
}

/// The final component that `std::path::Path::file_name` finds in the path
/// `path`, read with the path syntax of the platform the crate is built for.
pub uninterp spec fn path_file_name(path: Seq<char>) -> Option<Seq<char>>;

/// `std::path::Path::file_name` of a path given as text.
#[verifier::external_body]
pub(crate) fn file_name_of(path: &str) -> (r: Option<String>)
    ensures
        match r {
            Some(n) => path_file_name(path@) == Some(n@),
            None => path_file_name(path@) is None,
        },
{
    std::path::Path::new(path).file_name().and_then(|n| n.to_str()).map(|n| n.to_string())
}

/// The lowercase extensions of the image types the viewer opens.
pub open spec fn supported_extension(ext: Seq<char>) -> bool {
    ext == "png"@ || ext == "jpg"@ || ext == "jpeg"@ || ext == "webp"@ || ext == "gif"@ || ext
        == "bmp"@ || ext == "tiff"@ || ext == "tif"@ || ext == "ico"@
}

/// Whether a path names a supported image by its extension, in any case.
pub fn is_supported_image(path: &str) -> (r: bool)
    ensures
        r == names_supported_image(path@),
{
    match extension_of(path) {
        None => false,
        Some(ext) => {
            let e = to_lowercase(ext.as_str());
            let e = e.as_str();
            same_text(e, "png") || same_text(e, "jpg") || same_text(e, "jpeg") || same_text(e, "webp")
                || same_text(e, "gif") || same_text(e, "bmp") || same_text(e, "tiff") || same_text(
                e,
                "tif",
            ) || same_text(e, "ico")
        },
    }
}

/// Whether the path `path` names a supported image by its extension, in any case.
pub open spec fn names_supported_image(path: Seq<char>) -> bool {
    path_extension(path) matches Some(e) && supported_extension(lowercase(e))
}

/// Folder order: case-insensitively by path, then by the exact path.
pub open spec fn sibling_before(a: Seq<char>, b: Seq<char>) -> bool {
    text_lt(lowercase(a), lowercase(b)) || (lowercase(a) == lowercase(b) && text_lt(a, b))
}

/// `s` is in folder order without repetitions.
pub open spec fn in_folder_order(s: Seq<Seq<char>>) -> bool {
    forall|i: int, j: int| 0 <= i < j < s.len() ==> sibling_before(#[trigger] s[i], #[trigger] s[j])
}

/// Folder order is transitive: it sorts any set of paths consistently.
pub proof fn lemma_sibling_before_transitive(a: Seq<char>, b: Seq<char>, c: Seq<char>)
    requires
        sibling_before(a, b),
        sibling_before(b, c),
    ensures
        sibling_before(a, c),
{
    let (la, lb, lc) = (lowercase(a), lowercase(b), lowercase(c));
    if text_lt(la, lb) && text_lt(lb, lc) {
        lemma_text_lt_transitive(la, lb, lc);
    } else if text_lt(la, lb) {
    } else if text_lt(lb, lc) {
    } else {
        lemma_text_lt_transitive(a, b, c);
    }
}

/// Folder order is total: of two different paths, one comes first, so the
/// order of a folder's images never depends on how they were listed.
pub proof fn lemma_sibling_before_total(a: Seq<char>, b: Seq<char>)
    ensures
        a == b || sibling_before(a, b) || sibling_before(b, a),
{
    lemma_text_lt_total(lowercase(a), lowercase(b));
    lemma_text_lt_total(a, b);
}

/// No path comes before itself, so an ordered listing holds each path once.
pub proof fn lemma_sibling_before_irreflexive(a: Seq<char>)
    ensures
        !sibling_before(a, a),
{
    lemma_text_lt_irreflexive(lowercase(a));
    lemma_text_lt_irreflexive(a);
}

/// Whether the path with characters `a` and lowercase `la` comes before the one
/// with `b` and `lb`.
fn comes_before(a: &Vec<char>, la: &Vec<char>, b: &Vec<char>, lb: &Vec<char>) -> (r: bool)
    requires
        la@ == lowercase(a@),
        lb@ == lowercase(b@),
    ensures
        r == sibling_before(a@, b@),
{
    if text_less(la, lb) {
        return true;
    }
    if text_less(lb, la) {
        return false;
    }
    proof {
        lemma_text_lt_total(la@, lb@);
    }
    text_less(a, b)
}

/// The sorted paths, their characters and their lowercase characters.
struct Listing {
    paths: Vec<String>,
    chars: Vec<Vec<char>>,
    keys: Vec<Vec<char>>,
}

impl Listing {
    spec fn wf(&self) -> bool {
        &&& self.paths@.len() == self.chars@.len()
        &&& self.paths@.len() == self.keys@.len()
        &&& forall|i: int| 0 <= i < self.paths@.len() ==> #[trigger] self.chars@[i]@ == self.paths@[i]@
        &&& forall|i: int| 0 <= i < self.paths@.len() ==> #[trigger] self.keys@[i]@ == lowercase(self.paths@[i]@)
        &&& in_folder_order(texts(self.paths@))
    }

    /// Adds `path` in folder order unless it is already listed.
    fn place(&mut self, path: String)
        requires
            old(self).wf(),
        ensures
            final(self).wf(),
            forall|x: Seq<char>| texts(final(self).paths@).contains(x) <==> (texts(old(self).paths@).contains(x) || x == path@),
    {
        let c = chars_of(path.as_str());
        let lower = to_lowercase(path.as_str());
        let k = chars_of(lower.as_str());
        let ghost v = texts(self.paths@);
        let mut i: usize = 0;
        while i < self.paths.len() && comes_before(&self.chars[i], &self.keys[i], &c, &k)
            invariant
                self.wf(),
                v == texts(self.paths@),
                c@ == path@,
                k@ == lowercase(path@),
                i <= self.paths@.len(),
                forall|j: int| 0 <= j < i ==> sibling_before(#[trigger] v[j], path@),
            decreases self.paths@.len() - i,
        {
            i = i + 1;
        }
        if i < self.paths.len() && !text_less(&self.chars[i], &c) && !text_less(&c, &self.chars[i]) {
            proof {
                lemma_text_lt_total(self.chars@[i as int]@, c@);
                assert(v[i as int] == path@);
                assert forall|x: Seq<char>| v.contains(x) || x == path@ implies v.contains(x) by {
                    if x == path@ {
                        assert(v[i as int] == x);
                    }
                }
            }
            return;
        }
        proof {
            if i < self.paths@.len() {
                lemma_sibling_before_total(v[i as int], path@);
            }
            assert forall|j: int| i <= j < v.len() implies sibling_before(path@, #[trigger] v[j]) by {
                if j > i {
                    lemma_sibling_before_transitive(path@, v[i as int], v[j]);
                }
            }
        }
        self.paths.insert(i, path);
        self.chars.insert(i, c);
        self.keys.insert(i, k);
        proof {
            let w = texts(self.paths@);
            assert(w =~= v.insert(i as int, path@));
            assert forall|a: int, b: int| 0 <= a < b < w.len() implies sibling_before(#[trigger] w[a], #[trigger] w[b]) by {
                if b < i {
                } else if a < i && b == i {
                } else if a < i {
                    lemma_sibling_before_transitive(w[a], path@, w[b]);
                } else if a == i {
                } else {
                }
            }
            assert forall|x: Seq<char>| w.contains(x) <==> (v.contains(x) || x == path@) by {
                if w.contains(x) {
                    let j = choose|j: int| 0 <= j < w.len() && w[j] == x;
                    if j < i {
                        assert(v[j] == x);
                    } else if j > i {
                        assert(v[j - 1] == x);
                    }
                }
                if v.contains(x) {
                    let j = choose|j: int| 0 <= j < v.len() && v[j] == x;
                    if j < i {
                        assert(w[j] == x);
                    } else {
                        assert(w[j + 1] == x);
                    }
                }
                if x == path@ {
                    assert(w[i as int] == x);
                }
            }
        }
    }
}

/// The images of a folder in folder order (case-insensitive by path, then by
/// exact path), each once, with `current` among them, and the position of
/// `current`.
pub fn order_siblings(files: Vec<String>, current: String) -> (r: (Vec<String>, usize))
    ensures
        in_folder_order(texts(r.0@)),
        forall|x: Seq<char>| texts(r.0@).contains(x) <==> (texts(files@).contains(x) || x == current@),
        r.1 < r.0@.len(),
        r.0@[r.1 as int]@ == current@,
{
    let mut list = Listing { paths: Vec::new(), chars: Vec::new(), keys: Vec::new() };
    assert(texts(list.paths@) =~= Seq::<Seq<char>>::empty());
    let ghost f = texts(files@);
    let mut t: usize = 0;
    while t < files.len()
        invariant
            list.wf(),
            f == texts(files@),
            t <= files@.len(),
            forall|x: Seq<char>| texts(list.paths@).contains(x) <==> f.take(t as int).contains(x),
        decreases files@.len() - t,
    {
        let p = String::from_str(files[t].as_str());
        let ghost before = texts(list.paths@);
        list.place(p);
        proof {
            let ft1 = f.take(t + 1);
            let ft = f.take(t as int);
            assert forall|x: Seq<char>| ft1.contains(x) <==> (ft.contains(x) || x == f[t as int]) by {
                if ft1.contains(x) {
                    let j = choose|j: int| 0 <= j < ft1.len() && ft1[j] == x;
                    if j < t {
                        assert(ft[j] == x);
                    }
                }
                if ft.contains(x) {
                    let j = choose|j: int| 0 <= j < ft.len() && ft[j] == x;
                    assert(ft1[j] == x);
                }
                if x == f[t as int] {
                    assert(ft1[t as int] == x);
                }
            }
        }
        t = t + 1;
    }
    assert(f.take(files@.len() as int) =~= f);
    let cur_chars = chars_of(current.as_str());
    let ghost cur = current@;
    list.place(String::from_str(current.as_str()));
    let ghost v = texts(list.paths@);
    assert(v.contains(cur_chars@));
    assert(forall|x: Seq<char>| v.contains(x) <==> (f.contains(x) || x == cur));
    let mut i: usize = 0;
    while i < list.paths.len()
        invariant
            list.wf(),
            v == texts(list.paths@),
            v.contains(cur_chars@),
            cur_chars@ == cur,
            cur == current@,
            f == texts(files@),
            forall|x: Seq<char>| v.contains(x) <==> (f.contains(x) || x == cur),
            i <= v.len(),
            forall|j: int| 0 <= j < i ==> v[j] != cur_chars@,
        decreases v.len() - i,
    {
        if !text_less(&list.chars[i], &cur_chars) && !text_less(&cur_chars, &list.chars[i]) {
            proof {
                lemma_text_lt_total(list.chars@[i as int]@, cur_chars@);
                assert(v[i as int] == cur);
            }
            return (list.paths, i);
        }
        proof {
            lemma_text_lt_irreflexive(cur_chars@);
        }
        i = i + 1;
    }
    proof {
        let j = choose|j: int| 0 <= j < v.len() && v[j] == cur_chars@;
        assert(v[j] != cur_chars@);
    }
    (list.paths, 0)
}

/// `siblings` lists, in folder order and each once, the supported images among
/// `entries` together with `current`, which stands at `index`.
pub open spec fn lists_folder(siblings: Seq<Seq<char>>, index: int, entries: Seq<Seq<char>>, current: Seq<char>) -> bool {
    &&& in_folder_order(siblings)
    &&& forall|x: Seq<char>| #[trigger] siblings.contains(x) <==> ((entries.contains(x) && names_supported_image(x)) || x == current)
    &&& 0 <= index < siblings.len()
    &&& siblings[index] == current
}

/// The images of a folder whose files are `entries`, in folder order, with
/// `current` among them even when its name has no supported extension, and the
/// position of `current`.
pub fn image_siblings(entries: &Vec<String>, current: &str) -> (r: (Vec<String>, usize))
    ensures
        lists_folder(texts(r.0@), r.1 as int, texts(entries@), current@),
{
    let mut files: Vec<String> = Vec::new();
    let ghost e = texts(entries@);
    let mut i: usize = 0;
    proof {
        assert(texts(files@) =~= Seq::<Seq<char>>::empty());
        assert(e.take(0) =~= Seq::<Seq<char>>::empty());
    }
    while i < entries.len()
        invariant
            e == texts(entries@),
            i <= entries@.len(),
            forall|x: Seq<char>| #[trigger] texts(files@).contains(x) <==> (e.take(i as int).contains(x)
                && names_supported_image(x)),
        decreases entries@.len() - i,
    {
        let ghost before = texts(files@);
        assert(entries@[i as int]@ == e[i as int]);
        let keep = is_supported_image(entries[i].as_str());
        if keep {
            files.push(String::from_str(entries[i].as_str()));
            assert(texts(files@) =~= before.push(e[i as int]));
        } else {
            assert(texts(files@) =~= before);
        }
        proof {
            lemma_take_step_contains(e, i as int);
            if keep {
                lemma_push_contains(before, e[i as int]);
            }
        }
        i = i + 1;
    }
    assert(e.take(entries@.len() as int) =~= e);
    let ghost f = texts(files@);
    let r = order_siblings(files, String::from_str(current));
    proof {
        let sib = texts(r.0@);
        assert forall|x: Seq<char>| #[trigger] sib.contains(x) <==> ((e.contains(x) && names_supported_image(x))
            || x == current@) by {
            assert(f.contains(x) <==> (e.take(entries@.len() as int).contains(x) && names_supported_image(x)));
        }
        assert(sib[r.1 as int] == r.0@[r.1 as int]@);
    }
    r
}

proof fn lemma_take_step_contains(e: Seq<Seq<char>>, i: int)
    requires
        0 <= i < e.len(),
    ensures
        forall|x: Seq<char>| #[trigger] e.take(i + 1).contains(x) <==> (e.take(i).contains(x) || x == e[i]),
{
    let et1 = e.take(i + 1);
    let et = e.take(i);
    assert forall|x: Seq<char>| #[trigger] et1.contains(x) <==> (et.contains(x) || x == e[i]) by {
        if et1.contains(x) {
            let j = choose|j: int| 0 <= j < et1.len() && et1[j] == x;
            if j < i {
                assert(et[j] == x);
            }
        }
        if et.contains(x) {
            let j = choose|j: int| 0 <= j < et.len() && et[j] == x;
            assert(et1[j] == x);
        }
        if x == e[i] {
            assert(et1[i] == x);
        }
    }
}

proof fn lemma_push_contains(s: Seq<Seq<char>>, y: Seq<char>)
    ensures
        forall|x: Seq<char>| #[trigger] s.push(y).contains(x) <==> (s.contains(x) || x == y),
{
    let t = s.push(y);
    assert forall|x: Seq<char>| #[trigger] t.contains(x) <==> (s.contains(x) || x == y) by {
        if t.contains(x) {
            let j = choose|j: int| 0 <= j < t.len() && t[j] == x;
            if j < s.len() {
                assert(s[j] == x);
            }
        }
        if s.contains(x) {
            let j = choose|j: int| 0 <= j < s.len() && s[j] == x;
            assert(t[j] == x);
        }
        if x == y {
            assert(t[s.len() as int] == x);
        }
    }
}

} // verus!
