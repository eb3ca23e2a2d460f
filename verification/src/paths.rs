//! File-system paths as strings, and what the gallery reads from them:
//! whether a file is an image, and which content type it is served with.
//!
//! The path operations themselves are `std::path`'s. Their results are
//! deterministic functions of their arguments, named below; only short
//! facts that std documents are stated about them.

use vstd::prelude::*;
use crate::text::{chars_of, lowercase_of, to_lowercase};

verus! {

/// `base` joined with `rel` (`Path::join`).
pub uninterp spec fn joined_path(base: Seq<char>, rel: Seq<char>) -> Seq<char>;

/// The final component of `p`, if it has one (`Path::file_name`).
pub uninterp spec fn file_name_of(p: Seq<char>) -> Option<Seq<char>>;

/// The extension of the file name of `p`, if it has one (`Path::extension`).
pub uninterp spec fn extension_of(p: Seq<char>) -> Option<Seq<char>>;

/// Whether `base` is a prefix of `p`, component by component
/// (`Path::starts_with`).
pub uninterp spec fn starts_with_path(p: Seq<char>, base: Seq<char>) -> bool;

/// `p` with the leading components `base` removed (`Path::strip_prefix`).
pub uninterp spec fn stripped_path(p: Seq<char>, base: Seq<char>) -> Seq<char>;

/// `p` rebuilt from its components (`Path::components` collected into a
/// `PathBuf`): repeated separators and `.` components other than a leading
/// one are dropped; `..` is kept.
pub uninterp spec fn components_path(p: Seq<char>) -> Seq<char>;

/// Trusted: `Path::join`. The result is named by `joined_path`; nothing
/// more is stated (what an absolute `rel` does depends on the platform).
#[verifier::external_body]
pub fn join_path(base: &str, rel: &str) -> (r: String)
    ensures
        r@ == joined_path(base@, rel@),
{
    std::path::Path::new(base).join(rel).to_string_lossy().into_owned()
}

/// Trusted: `Path::file_name`, converted to a `String`. Named by
/// `file_name_of`.
#[verifier::external_body]
pub fn file_name(p: &str) -> (r: Option<String>)
    ensures
        r matches Some(n) ==> file_name_of(p@) == Some(n@),
        r is None ==> file_name_of(p@) is None,
{
    std::path::Path::new(p).file_name().map(|n| n.to_string_lossy().into_owned())
}

/// Trusted: `Path::extension`, converted to a `String`. Named by
/// `extension_of`.
#[verifier::external_body]
pub fn extension(p: &str) -> (r: Option<String>)
    ensures
        r matches Some(e) ==> extension_of(p@) == Some(e@),
        r is None ==> extension_of(p@) is None,
{
    std::path::Path::new(p).extension().and_then(|e| e.to_str()).map(|e| e.to_string())
}

/// Trusted: `Path::starts_with`. Named by `starts_with_path`.
#[verifier::external_body]
pub fn path_starts_with(p: &str, base: &str) -> (r: bool)
    ensures
        r == starts_with_path(p@, base@),
{
    std::path::Path::new(p).starts_with(base)
}

/// Trusted: `Path::strip_prefix`. std documents that it fails exactly when
/// `base` is not a prefix of `p` in the sense of `Path::starts_with`; the
/// remainder is named by `stripped_path`.
#[verifier::external_body]
pub fn strip_prefix(p: &str, base: &str) -> (r: Option<String>)
    ensures
        r is Some <==> starts_with_path(p@, base@),
        r matches Some(s) ==> s@ == stripped_path(p@, base@),
{
    std::path::Path::new(p).strip_prefix(base).ok().map(|s| s.to_string_lossy().into_owned())
}

/// Trusted: `Path::components` collected into a `PathBuf`. Named by
/// `components_path`.
#[verifier::external_body]
pub fn normalize_components(p: &str) -> (r: String)
    ensures
        r@ == components_path(p@),
{
    std::path::Path::new(p).components().collect::<std::path::PathBuf>().to_string_lossy().into_owned()
}

/// `p` relative to `base` when `base` is a prefix of it, else `p` itself
/// (`strip_prefix(base).unwrap_or(p)`).
pub open spec fn relative_to(p: Seq<char>, base: Seq<char>) -> Seq<char> {
    if starts_with_path(p, base) {
        stripped_path(p, base)
    } else {
        p
    }
}

/// `p` relative to `base`, or `p` itself when `base` is not its prefix.
pub fn relative_path(p: &str, base: &str) -> (r: String)
    ensures
        r@ == relative_to(p@, base@),
{
    match strip_prefix(p, base) {
        Some(s) => s,
        None => String::from_str(p),
    }
}

// ---------------------------------------------------------------------------
// Paths that climb out of their base
// ---------------------------------------------------------------------------

/// Number of leading characters of `p` before its first `/`: the length of
/// its first component.
pub open spec fn segment_len(p: Seq<char>) -> nat
    decreases p.len(),
{
    if p.len() > 0 && p[0] != '/' {
        1 + segment_len(p.skip(1))
    } else {
        0
    }
}

pub proof fn lemma_segment_len_bounds(p: Seq<char>)
    ensures
        segment_len(p) <= p.len(),
        forall|t: int| 0 <= t < segment_len(p) ==> #[trigger] p[t] != '/',
        segment_len(p) < p.len() ==> p[segment_len(p) as int] == '/',
    decreases p.len(),
{
    if p.len() > 0 && p[0] != '/' {
        lemma_segment_len_bounds(p.skip(1));
        assert forall|t: int| 0 <= t < segment_len(p) implies #[trigger] p[t] != '/' by {
            if t > 0 {
                assert(p[t] == p.skip(1)[t - 1]);
            }
        }
        if segment_len(p) < p.len() {
            assert(p[segment_len(p) as int] == p.skip(1)[segment_len(p.skip(1)) as int]);
        }
    }
}

/// `segment_len` is determined by where the first `/` stands.
pub proof fn lemma_segment_len_char(p: Seq<char>, k: nat)
    requires
        k <= p.len(),
        forall|t: int| 0 <= t < k ==> #[trigger] p[t] != '/',
        k < p.len() ==> p[k as int] == '/',
    ensures
        segment_len(p) == k,
    decreases p.len(),
{
    if k > 0 {
        assert(p[0] != '/');
        assert forall|t: int| 0 <= t < k - 1 implies #[trigger] p.skip(1)[t] != '/' by {
            assert(p.skip(1)[t] == p[t + 1]);
        }
        if k - 1 < p.skip(1).len() {
            assert(p.skip(1)[k - 1] == p[k as int]);
        }
        lemma_segment_len_char(p.skip(1), (k - 1) as nat);
    }
}

/// The depth below a starting directory after walking component `c` from
/// depth `d`: `..` goes up one level, an empty component or `.` stays, any
/// other name goes down one level.
pub open spec fn depth_after(d: int, c: Seq<char>) -> int {
    if c == seq!['.', '.'] {
        d - 1
    } else if c.len() == 0 || c == seq!['.'] {
        d
    } else {
        d + 1
    }
}

/// Walking the `/`-separated components of `p` from depth `d`, some `..`
/// goes above depth 0.
pub open spec fn climbs_from(p: Seq<char>, d: int) -> bool
    decreases p.len(),
{
    let k = segment_len(p);
    let d2 = depth_after(d, p.take(k as int));
    if d2 < 0 {
        true
    } else if k >= p.len() {
        false
    } else {
        proof {
            lemma_segment_len_bounds(p);
        }
        climbs_from(p.skip(k as int + 1), d2)
    }
}

/// `p`, taken relative to a directory, climbs above it with `..`.
pub open spec fn climbs_out(p: Seq<char>) -> bool {
    climbs_from(p, 0)
}

/// `p` lies lexically under `root`: `root`'s components are a prefix of it,
/// and the rest never climbs above `root` with `..`.
pub open spec fn lexically_under(p: Seq<char>, root: Seq<char>) -> bool {
    starts_with_path(p, root) && !climbs_out(stripped_path(p, root))
}

/// Whether `p`, taken relative to a directory, climbs above it with `..`.
pub fn climbs_out_of_base(p: &str) -> (r: bool)
    ensures
        r == climbs_out(p@),
{
    let s = chars_of(p);
    let n = s.len();
    let mut start: usize = 0;
    let mut depth: usize = 0;
    proof {
        assert(s@.skip(0) == s@);
    }
    loop
        invariant
            n == s.len(),
            s@ == p@,
            start <= n,
            depth <= start,
            climbs_out(p@) == climbs_from(s@.skip(start as int), depth as int),
        decreases n - start,
    {
        let ghost rest = s@.skip(start as int);
        let mut k: usize = start;
        while k < n && s[k] != '/'
            invariant
                n == s.len(),
                rest == s@.skip(start as int),
                start <= k <= n,
                forall|t: int| start <= t < k ==> s@[t] != '/',
            decreases n - k,
        {
            k = k + 1;
        }
        let len = k - start;
        proof {
            assert forall|t: int| 0 <= t < len implies #[trigger] rest[t] != '/' by {
                assert(rest[t] == s@[start + t]);
            }
            if len < rest.len() {
                assert(rest[len as int] == s@[k as int]);
            }
            lemma_segment_len_char(rest, len as nat);
        }
        let ghost seg = rest.take(len as int);
        let is_dotdot = len == 2 && s[start] == '.' && s[start + 1] == '.';
        let is_dot = len == 1 && s[start] == '.';
        proof {
            let dd = seq!['.', '.'];
            let d1 = seq!['.'];
            assert(dd.len() == 2 && dd[0] == '.' && dd[1] == '.');
            assert(d1.len() == 1 && d1[0] == '.');
            assert(seg.len() == len);
            assert forall|t: int| 0 <= t < len implies #[trigger] seg[t] == s@[start + t] by {
                assert(seg[t] == rest[t]);
            }
            if is_dotdot {
                assert(seg =~= dd);
            } else if seg == dd {
                assert(seg[0] == s@[start + 0]);
                assert(seg[1] == s@[start + 1]);
            }
            if is_dot {
                assert(seg =~= d1);
            } else if seg == d1 {
                assert(seg[0] == s@[start + 0]);
            }
        }
        if is_dotdot {
            if depth == 0 {
                return true;
            }
            depth = depth - 1;
        } else if len == 0 || is_dot {
        } else {
            depth = depth + 1;
        }
        if k >= n {
            return false;
        }
        assert(rest.skip(len + 1) =~= s@.skip(k + 1));
        start = k + 1;
    }
}

/// Whether `p` lies lexically under `root` (see `lexically_under`).
pub fn is_lexically_under(p: &str, root: &str) -> (r: bool)
    ensures
        r == lexically_under(p@, root@),
{
    match strip_prefix(p, root) {
        Some(rest) => !climbs_out_of_base(rest.as_str()),
        None => false,
    }
}

/// `p` has a `..` component starting at index `i`: two dots with a `/` or
/// an end of `p` on each side.
pub open spec fn parent_component_at(p: Seq<char>, i: int) -> bool {
    &&& 0 <= i && i + 2 <= p.len()
    &&& p[i] == '.' && p[i + 1] == '.'
    &&& (i == 0 || p[i - 1] == '/')
    &&& (i + 2 == p.len() || p[i + 2] == '/')
}

/// A path with no `..` component never climbs above its base.
pub proof fn lemma_no_parent_never_climbs(p: Seq<char>, d: int)
    requires
        d >= 0,
        forall|i: int| !#[trigger] parent_component_at(p, i),
    ensures
        !climbs_from(p, d),
    decreases p.len(),
{
    lemma_segment_len_bounds(p);
    let k = segment_len(p);
    let seg = p.take(k as int);
    let dd = seq!['.', '.'];
    assert(dd.len() == 2 && dd[0] == '.' && dd[1] == '.');
    if seg == dd {
        assert(seg.len() == k);
        assert(seg[0] == p[0] && seg[1] == p[1]);
        if k < p.len() {
            assert(p[2] == '/');
        }
        assert(parent_component_at(p, 0));
    }
    if k < p.len() {
        let q = p.skip(k as int + 1);
        assert forall|i: int| !#[trigger] parent_component_at(q, i) by {
            if parent_component_at(q, i) {
                let j = i + k + 1;
                assert(q[i] == p[j] && q[i + 1] == p[j + 1]);
                if i == 0 {
                    assert(p[j - 1] == '/');
                } else {
                    assert(q[i - 1] == p[j - 1]);
                }
                if i + 2 < q.len() {
                    assert(q[i + 2] == p[j + 2]);
                }
                assert(parent_component_at(p, j));
            }
        }
        lemma_no_parent_never_climbs(q, depth_after(d, seg));
    }
}

// ---------------------------------------------------------------------------
// Image files and content types
// ---------------------------------------------------------------------------

/// The (lower-case) extensions of image files: jpg, jpeg, png, webp, gif, bmp.
pub open spec fn image_extension(e: Seq<char>) -> bool {
    ||| e == seq!['j', 'p', 'g']
    ||| e == seq!['j', 'p', 'e', 'g']
    ||| e == seq!['p', 'n', 'g']
    ||| e == seq!['w', 'e', 'b', 'p']
    ||| e == seq!['g', 'i', 'f']
    ||| e == seq!['b', 'm', 'p']
}

/// Whether the file at `p` counts as an image: its extension, lower-cased,
/// is one of the image extensions.
pub open spec fn is_image_path(p: Seq<char>) -> bool {
    match extension_of(p) {
        Some(e) => image_extension(lowercase_of(e)),
        None => false,
    }
}

/// `a` and `b` hold the same characters.
pub fn chars_equal(a: &Vec<char>, b: &[char]) -> (r: bool)
    ensures
        r == (a@ == b@),
{
    if a.len() != b.len() {
        return false;
    }
    let mut i: usize = 0;
    while i < a.len()
        invariant
            a.len() == b@.len(),
            i <= a.len(),
            forall|t: int| 0 <= t < i ==> a@[t] == b@[t],
        decreases a.len() - i,
    {
        if a[i] != b[i] {
            return false;
        }
        i = i + 1;
    }
    assert(a@ == b@);
    true
}

/// Whether a lower-case extension is one of the image extensions.
pub fn is_image_extension(lower: &str) -> (r: bool)
    ensures
        r == image_extension(lower@),
{
    let e = chars_of(lower);
    let r = chars_equal(&e, &['j', 'p', 'g']) || chars_equal(&e, &['j', 'p', 'e', 'g'])
        || chars_equal(&e, &['p', 'n', 'g']) || chars_equal(&e, &['w', 'e', 'b', 'p'])
        || chars_equal(&e, &['g', 'i', 'f']) || chars_equal(&e, &['b', 'm', 'p']);
    r
}

/// Whether the file at `path` is an image, judged by its extension
/// (case-insensitively).
pub fn is_image(path: &str) -> (r: bool)
    ensures
        r == is_image_path(path@),
{
    match extension(path) {
        Some(e) => {
            let lower = to_lowercase(e.as_str());
            is_image_extension(lower.as_str())
        },
        None => false,
    }
}

/// The content type served for a lower-case extension.
pub open spec fn content_type_for(e: Seq<char>) -> Seq<char> {
    if e == seq!['j', 'p', 'g'] || e == seq!['j', 'p', 'e', 'g'] {
        "image/jpeg"@
    } else if e == seq!['p', 'n', 'g'] {
        "image/png"@
    } else if e == seq!['w', 'e', 'b', 'p'] {
        "image/webp"@
    } else if e == seq!['g', 'i', 'f'] {
        "image/gif"@
    } else if e == seq!['b', 'm', 'p'] {
        "image/bmp"@
    } else {
        "application/octet-stream"@
    }
}

/// The content type served for the file at `p`.
pub open spec fn content_type_of_path(p: Seq<char>) -> Seq<char> {
    match extension_of(p) {
        Some(e) => content_type_for(lowercase_of(e)),
        None => "application/octet-stream"@,
    }
}

/// The content type for a lower-case extension.
pub fn content_type_for_extension(lower: &str) -> (r: &'static str)
    ensures
        r@ == content_type_for(lower@),
{
    let e = chars_of(lower);
    if chars_equal(&e, &['j', 'p', 'g']) || chars_equal(&e, &['j', 'p', 'e', 'g']) {
        "image/jpeg"
    } else if chars_equal(&e, &['p', 'n', 'g']) {
        "image/png"
    } else if chars_equal(&e, &['w', 'e', 'b', 'p']) {
        "image/webp"
    } else if chars_equal(&e, &['g', 'i', 'f']) {
        "image/gif"
    } else if chars_equal(&e, &['b', 'm', 'p']) {
        "image/bmp"
    } else {
        "application/octet-stream"
    }
}

/// Guesses the content type of the file at `path` from its extension
/// (case-insensitively); `application/octet-stream` when unknown.
pub fn guess_content_type(path: &str) -> (r: &'static str)
    ensures
        r@ == content_type_of_path(path@),
{
    match extension(path) {
        Some(e) => {
            let lower = to_lowercase(e.as_str());
            content_type_for_extension(lower.as_str())
        },
        None => "application/octet-stream",
    }
}

/// The image extensions are exactly the six supported formats: jpg, jpeg,
/// png, webp, gif and bmp (lower case); no other extension, such as `pdf`,
/// makes a file an image.
pub proof fn lemma_image_extensions_exactly(e: Seq<char>)
    ensures
        image_extension(e) <==> (e == "jpg"@ || e == "jpeg"@ || e == "png"@ || e == "webp"@
            || e == "gif"@ || e == "bmp"@),
{
    reveal_strlit("jpg");
    reveal_strlit("jpeg");
    reveal_strlit("png");
    reveal_strlit("webp");
    reveal_strlit("gif");
    reveal_strlit("bmp");
    assert(seq!['j', 'p', 'g'] =~= "jpg"@);
    assert(seq!['j', 'p', 'e', 'g'] =~= "jpeg"@);
    assert(seq!['p', 'n', 'g'] =~= "png"@);
    assert(seq!['w', 'e', 'b', 'p'] =~= "webp"@);
    assert(seq!['g', 'i', 'f'] =~= "gif"@);
    assert(seq!['b', 'm', 'p'] =~= "bmp"@);
}

/// A file is an image exactly when it is served with an image content
/// type: every other file is served as `application/octet-stream`.
pub proof fn lemma_images_have_image_content_types(p: Seq<char>)
    ensures
        is_image_path(p) <==> content_type_of_path(p) != "application/octet-stream"@,
        is_image_path(p) ==> content_type_of_path(p).take(6) == "image/"@,
{
    reveal_strlit("application/octet-stream");
    reveal_strlit("image/");
    reveal_strlit("image/jpeg");
    reveal_strlit("image/png");
    reveal_strlit("image/webp");
    reveal_strlit("image/gif");
    reveal_strlit("image/bmp");
    assert("image/jpeg"@.take(6) =~= "image/"@);
    assert("image/png"@.take(6) =~= "image/"@);
    assert("image/webp"@.take(6) =~= "image/"@);
    assert("image/gif"@.take(6) =~= "image/"@);
    assert("image/bmp"@.take(6) =~= "image/"@);
    assert("image/jpeg"@[0] != "application/octet-stream"@[0]);
    assert("image/png"@[0] != "application/octet-stream"@[0]);
    assert("image/webp"@[0] != "application/octet-stream"@[0]);
    assert("image/gif"@[0] != "application/octet-stream"@[0]);
    assert("image/bmp"@[0] != "application/octet-stream"@[0]);
}

} // verus!
