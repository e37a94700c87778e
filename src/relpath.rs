//! Making a local dependency path relative to the workspace root.
use vstd::prelude::*;
use vstd::string::{StrSliceExecFns, StringExecFns};
use crate::source::opt_view;

verus! {

/// The path from `base` to `path`, as `pathdiff::diff_paths` computes it.
pub uninterp spec fn relative_of(path: Seq<char>, base: Seq<char>) -> Option<Seq<char>>;

/// Relies on `pathdiff::diff_paths`: the relative path from `base` to `path`
/// (taken as text), which depends on the two paths alone.
#[verifier::external_body]
fn diff_paths(path: &str, base: &str) -> (r: Option<String>)
    ensures
        opt_view(r) == relative_of(path@, base@),
{
    match pathdiff::diff_paths(path, base) {
        Some(p) => Some(p.to_string_lossy().to_string()),
        None => None,
    }
}

pub open spec fn has_prefix(s: Seq<char>, p: Seq<char>) -> bool {
    s.len() >= p.len() && s.subrange(0, p.len() as int) == p
}

/// A relative path with an explicit `./` or `../` in front.
pub open spec fn with_rel_prefix_spec(rel: Seq<char>) -> Seq<char> {
    if has_prefix(rel, "./"@) || has_prefix(rel, "../"@) {
        rel
    } else {
        "./"@ + rel
    }
}

/// Whether `s` begins with `p`.
pub fn starts_with(s: &str, p: &str) -> (r: bool)
    ensures
        r == has_prefix(s@, p@),
{
    let n = s.unicode_len();
    let m = p.unicode_len();
    if n < m {
        return false;
    }
    let mut i: usize = 0;
    while i < m
        invariant
            i <= m <= n,
            n == s@.len(),
            m == p@.len(),
            forall|j: int| 0 <= j < i ==> s@[j] == p@[j],
        decreases m - i,
    {
        if s.get_char(i) != p.get_char(i) {
            assert(s@.subrange(0, m as int)[i as int] != p@[i as int]);
            return false;
        }
        i = i + 1;
    }
    assert(s@.subrange(0, m as int) =~= p@);
    true
}

/// Puts `./` in front of a relative path unless it begins with `./` or `../`.
pub fn with_rel_prefix(rel: &str) -> (r: String)
    ensures
        r@ == with_rel_prefix_spec(rel@),
{
    if starts_with(rel, "./") || starts_with(rel, "../") {
        String::from_str(rel)
    } else {
        let mut r = String::from_str("./");
        r.append(rel);
        r
    }
}

/// The root-relative form of a dependency directory, from the resolved
/// (absolute) directory and the resolved workspace root.
pub fn relativize(dep_dir: &str, root_dir: &str) -> (r: Option<String>)
    ensures
        opt_view(r) == match relative_of(dep_dir@, root_dir@) {
            Some(rel) => Some(with_rel_prefix_spec(rel)),
            None => None,
        },
{
    match diff_paths(dep_dir, root_dir) {
        Some(rel) => Some(with_rel_prefix(rel.as_str())),
        None => None,
    }
}

} // verus!
