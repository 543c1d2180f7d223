//! Script path checks: a script path must stay under the scripts directory.

use vstd::prelude::*;
use crate::text::{owned, append_str, seq_contains, seq_starts_with, str_contains, str_starts_with, str_eq, chars_of};

verus! {

/// `base` joined with `path`: `path` itself when it is absolute or `base` is empty, else the
/// two with one `/` between them.
pub open spec fn joined(base: Seq<char>, path: Seq<char>) -> Seq<char> {
    if path.len() > 0 && path[0] == '/' {
        path
    } else if base.len() == 0 {
        path
    } else if base.len() > 0 && base[base.len() - 1] == '/' {
        base + path
    } else {
        base + "/"@ + path
    }
}

/// Join `path` onto `base` (see `joined`).
pub fn join_path(base: &str, path: &str) -> (r: String)
    ensures
        r@ == joined(base@, path@),
{
    let p = chars_of(path);
    if p.len() > 0 && p[0] == '/' {
        return owned(path);
    }
    let b = chars_of(base);
    if b.len() == 0 {
        return owned(path);
    }
    let mut r = owned(base);
    if !(b.len() > 0 && b[b.len() - 1] == '/') {
        append_str(&mut r, "/");
    }
    append_str(&mut r, path);
    r
}

/// Whether the path `full` lies under the directory `base`, component by component: it is
/// `base` or begins with `base` and a `/`.
pub open spec fn under(full: Seq<char>, base: Seq<char>) -> bool {
    ||| full == base
    ||| (base.len() > 0 && base[base.len() - 1] == '/' && seq_starts_with(full, base))
    ||| seq_starts_with(full, base + "/"@)
}

/// Whether `full` lies under `base` (see `under`).
pub fn path_under(full: &str, base: &str) -> (r: bool)
    ensures
        r == under(full@, base@),
{
    if str_eq(full, base) {
        return true;
    }
    let b = chars_of(base);
    if b.len() > 0 && b[b.len() - 1] == '/' && str_starts_with(full, base) {
        return true;
    }
    let mut with_slash = owned(base);
    append_str(&mut with_slash, "/");
    str_starts_with(full, with_slash.as_str())
}

/// Validate a script path is safe: it holds no `..`, and once `canonicalize` (which resolves
/// a path on disk, or fails) has resolved both, the script's path joined onto `base` lies
/// under `base`. The resolver is called on the joined path and on `base`, and the answer
/// follows from what those calls gave.
pub fn validate_script_path<F>(base: &str, path: &str, canonicalize: F) -> (r: bool)
    where F: Fn(&str) -> Option<String>,
    requires
        forall|p: &str| #[trigger] canonicalize.requires((p,)),
    ensures
        seq_contains(path@, ".."@) ==> !r,
        !seq_contains(path@, ".."@) ==> exists|q: &str, b: &str, full: Option<String>, root: Option<String>|
            #![trigger canonicalize.ensures((q,), full), canonicalize.ensures((b,), root)]
            q@ == joined(base@, path@) && b@ == base@
            && canonicalize.ensures((q,), full) && canonicalize.ensures((b,), root)
            && r == (full matches Some(f) && root matches Some(rt) && under(f@, rt@)),
{
    if str_contains(path, "..") {
        return false;
    }
    let full_path = join_path(base, path);
    let full = canonicalize(full_path.as_str());
    let root = canonicalize(base);
    match (full, root) {
        (Some(f), Some(rt)) => path_under(f.as_str(), rt.as_str()),
        _ => false,
    }
}

} // verus!
