//! Resolving where an upload goes and what a delete removes, beneath the
//! storage root.
//!
//! Paths are kept inside the root: a relative path that starts with `/` or
//! holds a `..` segment is refused, and so is a file name that holds `/` or
//! is `.` or `..`.
use vstd::prelude::*;
use crate::outcome::{DeleteOutcome, UploadOutcome};

verus! {

/// What percent-decoding a request path and reading the bytes as UTF-8
/// yields; `None` where the decoded bytes are not UTF-8.
pub uninterp spec fn percent_decoded(s: Seq<char>) -> Option<Seq<char>>;

/// `s` holds no `%`.
pub open spec fn no_percent(s: Seq<char>) -> bool {
    forall|i: int| 0 <= i < s.len() ==> s[i] != '%'
}

/// Relies on `percent_encoding::percent_decode_str(..).decode_utf8()`: every
/// `%` followed by two hex digits becomes that byte, and the result is read
/// as UTF-8 (an error where it is not). A string without `%` is returned as
/// it is.
#[verifier::external_body]
fn percent_decode(s: &str) -> (r: Option<String>)
    ensures
        match r {
            Some(d) => percent_decoded(s@) == Some(d@),
            None => percent_decoded(s@) is None,
        },
        no_percent(s@) ==> r is Some && r->0@ == s@,
{
    match percent_encoding::percent_decode_str(s).decode_utf8() {
        Ok(d) => Some(d.into_owned()),
        Err(_) => None,
    }
}

/// The route prefix of uploads.
pub open spec fn upload_prefix() -> Seq<char> {
    seq!['/', 'u', 'p', 'l', 'o', 'a', 'd']
}

/// `p` has a segment that is exactly `..`.
pub open spec fn has_parent_segment(p: Seq<char>) -> bool {
    exists|i: int| #[trigger] parent_segment_at(p, i)
}

pub open spec fn parent_segment_at(p: Seq<char>, i: int) -> bool {
    &&& 0 <= i && i + 1 < p.len()
    &&& p[i] == '.' && p[i + 1] == '.'
    &&& (i == 0 || p[i - 1] == '/')
    &&& (i + 2 == p.len() || p[i + 2] == '/')
}

/// A relative path that cannot leave the directory it is joined onto.
pub open spec fn safe_relative(p: Seq<char>) -> bool {
    &&& (p.len() == 0 || p[0] != '/')
    &&& !has_parent_segment(p)
}

/// A plain, non-empty file name.
pub open spec fn safe_filename(f: Seq<char>) -> bool {
    &&& f.len() > 0
    &&& forall|i: int| 0 <= i < f.len() ==> f[i] != '/'
    &&& f != seq!['.']
    &&& f != seq!['.', '.']
}

/// The relative directory that a decoded upload path names: what follows
/// `/upload` and one `/`. `None` where the path does not start with
/// `/upload`, where something other than `/` follows it, or where the rest
/// is not a safe relative path.
pub open spec fn upload_rel(d: Seq<char>) -> Option<Seq<char>> {
    if d.len() < 7 || d.subrange(0, 7) != upload_prefix() {
        None
    } else if d.len() == 7 {
        Some(Seq::empty())
    } else if d[7] != '/' {
        None
    } else if safe_relative(d.subrange(8, d.len() as int)) {
        Some(d.subrange(8, d.len() as int))
    } else {
        None
    }
}

/// `b` appended to the path `a`, with one `/` between them.
pub open spec fn join(a: Seq<char>, b: Seq<char>) -> Seq<char> {
    if a.len() == 0 || a.last() == '/' {
        a + b
    } else {
        a + seq!['/'] + b
    }
}

/// The directory for a relative path `rel` under `root`.
pub open spec fn dir_under(root: Seq<char>, rel: Seq<char>) -> Seq<char> {
    if rel.len() == 0 {
        root
    } else {
        join(root, rel)
    }
}

/// The directory that the raw request path `path` names under `root`, or
/// `None` where the upload is refused with `BadPath`.
pub open spec fn request_dir(root: Seq<char>, path: Seq<char>) -> Option<Seq<char>> {
    match percent_decoded(path) {
        None => None,
        Some(d) => match upload_rel(d) {
            Some(rel) => Some(dir_under(root, rel)),
            None => None,
        },
    }
}

/// The path `b` joined onto the path `a` (see [`join`]).
pub fn join_path(a: &str, b: &str) -> (r: String)
    ensures
        r@ == join(a@, b@),
{
    let len = a.unicode_len();
    let mut r = String::from_str(a);
    if len > 0 && a.get_char(len - 1) != '/' {
        proof {
            reveal_strlit("/");
        }
        r.append("/");
    }
    r.append(b);
    r
}

fn has_parent_segment_exec(p: &str) -> (r: bool)
    ensures
        r == has_parent_segment(p@),
{
    let len = p.unicode_len();
    let mut i: usize = 0;
    while len > 0 && i < len - 1
        invariant
            len == p@.len(),
            forall|j: int| 0 <= j < i ==> !parent_segment_at(p@, j),
        decreases len - i,
    {
        if p.get_char(i) == '.' && p.get_char(i + 1) == '.' && (i == 0 || p.get_char(i - 1)
            == '/') && (i + 2 == len || p.get_char(i + 2) == '/') {
            assert(parent_segment_at(p@, i as int));
            return true;
        }
        i += 1;
    }
    assert forall|j: int| !parent_segment_at(p@, j) by {
        if 0 <= j < i {
        }
    }
    false
}

/// Whether `p` is a relative path that stays below the directory it is
/// joined onto.
pub fn is_safe_relative(p: &str) -> (r: bool)
    ensures
        r == safe_relative(p@),
{
    let len = p.unicode_len();
    if len > 0 && p.get_char(0) == '/' {
        return false;
    }
    !has_parent_segment_exec(p)
}

/// Whether `f` is a plain, non-empty file name.
pub fn is_safe_filename(f: &str) -> (r: bool)
    ensures
        r == safe_filename(f@),
{
    let len = f.unicode_len();
    if len == 0 {
        return false;
    }
    let mut i: usize = 0;
    while i < len
        invariant
            len == f@.len(),
            forall|j: int| 0 <= j < i ==> f@[j] != '/',
        decreases len - i,
    {
        if f.get_char(i) == '/' {
            return false;
        }
        i += 1;
    }
    if len <= 2 && f.get_char(0) == '.' && (len == 1 || f.get_char(1) == '.') {
        assert(f@ =~= seq!['.'] || f@ =~= seq!['.', '.']);
        return false;
    }
    assert(len == 1 ==> f@ != seq!['.']);
    assert(len == 2 ==> f@ != seq!['.', '.']);
    true
}

fn starts_with_upload(d: &str) -> (r: bool)
    ensures
        r == (d@.len() >= 7 && d@.subrange(0, 7) == upload_prefix()),
{
    let prefix = "/upload";
    proof {
        reveal_strlit("/upload");
    }
    let len = d.unicode_len();
    if len < 7 {
        return false;
    }
    let mut i: usize = 0;
    while i < 7
        invariant
            len == d@.len() >= 7,
            prefix@ == upload_prefix(),
            forall|j: int| 0 <= j < i ==> d@[j] == upload_prefix()[j],
        decreases 7 - i,
    {
        if d.get_char(i) != prefix.get_char(i) {
            assert(d@.subrange(0, 7)[i as int] != upload_prefix()[i as int]);
            return false;
        }
        i += 1;
    }
    assert(d@.subrange(0, 7) =~= upload_prefix());
    true
}

/// The directory under `root` that the decoded upload path `decoded` names,
/// or `BadPath` where [`upload_rel`] refuses the path.
pub fn resolve_upload_dir(root: &str, decoded: &str) -> (r: Result<String, UploadOutcome>)
    ensures
        match upload_rel(decoded@) {
            Some(rel) => r is Ok && r->Ok_0@ == dir_under(root@, rel),
            None => r == Err::<String, UploadOutcome>(UploadOutcome::BadPath),
        },
{
    if !starts_with_upload(decoded) {
        return Err(UploadOutcome::BadPath);
    }
    let len = decoded.unicode_len();
    if len == 7 {
        return Ok(String::from_str(root));
    }
    if decoded.get_char(7) != '/' {
        return Err(UploadOutcome::BadPath);
    }
    let rel = decoded.substring_char(8, len);
    if !is_safe_relative(rel) {
        return Err(UploadOutcome::BadPath);
    }
    if rel.unicode_len() == 0 {
        Ok(String::from_str(root))
    } else {
        Ok(join_path(root, rel))
    }
}

/// The directory under `root` that the raw request path `request_path`
/// names: it is percent-decoded first; `BadPath` where the decoded bytes are
/// not UTF-8.
pub fn resolve_request_dir(root: &str, request_path: &str) -> (r: Result<String, UploadOutcome>)
    ensures
        match request_dir(root@, request_path@) {
            Some(dir) => r is Ok && r->Ok_0@ == dir,
            None => r == Err::<String, UploadOutcome>(UploadOutcome::BadPath),
        },
        no_percent(request_path@) ==> match upload_rel(request_path@) {
            Some(rel) => r is Ok && r->Ok_0@ == dir_under(root@, rel),
            None => r == Err::<String, UploadOutcome>(UploadOutcome::BadPath),
        },
{
    match percent_decode(request_path) {
        None => Err(UploadOutcome::BadPath),
        Some(d) => resolve_upload_dir(root, d.as_str()),
    }
}

/// The path under `root` that a delete of `path` removes; where `path` is
/// not a safe relative path nothing is removed and the answer is `NotFound`.
pub fn delete_target(root: &str, path: &str) -> (r: Result<String, DeleteOutcome>)
    ensures
        match r {
            Ok(t) => safe_relative(path@) && t@ == join(root@, path@),
            Err(e) => !safe_relative(path@) && e == DeleteOutcome::NotFound,
        },
{
    if is_safe_relative(path) {
        Ok(join_path(root, path))
    } else {
        Err(DeleteOutcome::NotFound)
    }
}

} // verus!
