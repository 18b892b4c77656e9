//! The remembered batch output folder.
use vstd::prelude::*;
use crate::text::{chars_of, owned};

verus! {

/// Whether `char::is_whitespace` holds of `c` (the Unicode White_Space property).
pub uninterp spec fn white_space(c: char) -> bool;

/// `char::is_whitespace`.
#[verifier::external_body]
fn is_white_space(c: char) -> (r: bool)
    ensures
        r == white_space(c),
{
    c.is_whitespace()
}

/// `String::push`: appends one character.
#[verifier::external_body]
fn push_char(s: &mut String, c: char)
    ensures
        final(s)@ == old(s)@.push(c),
{
    s.push(c);
}

/// `dirs::home_dir`, as text; which folder it returns depends on the
/// environment. It is never empty: on Unix (Linux and macOS) `dirs-sys` skips an
/// empty `$HOME` and turns an empty password-file entry into `None`; on Windows
/// it is the user profile folder that `SHGetKnownFolderPath` reports. Lossy
/// conversion to text keeps a non-empty path non-empty.
#[verifier::external_body]
fn home_dir() -> (r: Option<String>)
    ensures
        r matches Some(h) ==> h@.len() > 0,
{
    dirs::home_dir().map(|p| p.to_string_lossy().into_owned())
}

/// The first position from `i` on whose character is not white space.
pub open spec fn first_solid(s: Seq<char>, i: int) -> int
    decreases s.len() - i,
{
    if i >= s.len() {
        s.len() as int
    } else if white_space(s[i]) {
        first_solid(s, i + 1)
    } else {
        i
    }
}

/// One past the last position before `j` whose character is not white space,
/// not going below `lo`.
pub open spec fn end_solid(s: Seq<char>, lo: int, j: int) -> int
    decreases j - lo,
{
    if j <= lo {
        lo
    } else if white_space(s[j - 1]) {
        end_solid(s, lo, j - 1)
    } else {
        j
    }
}

/// `s` without leading and trailing white space.
pub open spec fn trimmed_text(s: Seq<char>) -> Seq<char> {
    let lo = first_solid(s, 0);
    s.subrange(lo, end_solid(s, lo, s.len() as int))
}

/// The folder a configuration file remembers: its text without surrounding
/// white space, or `None` when nothing is left.
pub fn saved_batch_output_dir(content: &str) -> (r: Option<String>)
    ensures
        trimmed_text(content@).len() == 0 ==> r is None,
        trimmed_text(content@).len() > 0 ==> (r matches Some(d) && d@ == trimmed_text(content@)),
{
    let c = chars_of(content);
    let n = c.len();
    let mut lo: usize = 0;
    while lo < n && is_white_space(c[lo])
        invariant
            c@ == content@,
            n == c@.len(),
            lo <= n,
            first_solid(c@, 0) == first_solid(c@, lo as int),
        decreases n - lo,
    {
        lo = lo + 1;
    }
    let mut hi: usize = n;
    while hi > lo && is_white_space(c[hi - 1])
        invariant
            c@ == content@,
            n == c@.len(),
            lo <= hi <= n,
            lo == first_solid(c@, 0),
            end_solid(c@, lo as int, n as int) == end_solid(c@, lo as int, hi as int),
        decreases hi - lo,
    {
        hi = hi - 1;
    }
    if hi == lo {
        return None;
    }
    let mut out = String::new();
    let mut i = lo;
    while i < hi
        invariant
            c@ == content@,
            n == c@.len(),
            lo <= i <= hi <= n,
            out@ == c@.subrange(lo as int, i as int),
        decreases hi - i,
    {
        push_char(&mut out, c[i]);
        assert(c@.subrange(lo as int, i + 1) =~= c@.subrange(lo as int, i as int).push(c@[i as int]));
        i = i + 1;
    }
    Some(out)
}

/// The folder to use when nothing is remembered: `home`, or the working
/// directory `.` without one.
pub fn fallback_batch_output_dir(home: Option<String>) -> (r: String)
    ensures
        home matches Some(h) ==> r@ == h@,
        home is None ==> r@ == "."@,
{
    match home {
        Some(h) => h,
        None => owned("."),
    }
}

/// The batch output folder when the user has no saved preference: the home
/// directory, or `.` when there is none; never empty.
pub fn default_batch_output_dir() -> (r: String)
    ensures
        r@.len() > 0,
{
    proof {
        reveal_strlit(".");
    }
    fallback_batch_output_dir(home_dir())
}

/// The batch output folder at startup: the remembered one, or the default.
pub fn initial_batch_output_dir(saved: Option<String>) -> (r: String)
    ensures
        saved matches Some(s) ==> r@ == s@,
{
    match saved {
        Some(s) => s,
        None => default_batch_output_dir(),
    }
}

} // verus!
