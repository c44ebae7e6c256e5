//! Paths as text, with `/` between their parts.

use vstd::prelude::*;
use vstd::string::{StrSliceExecFns, StringExecFns};

verus! {

/// Whether `path` is relative: it does not start at the root.
pub open spec fn is_relative(path: Seq<char>) -> bool {
    path.len() == 0 || path[0] != '/'
}

/// The path that `path` names for one who stands in `base`: `path` itself
/// where it starts at the root, else `base` with `path` after it and a
/// `/` between the two where `base` does not end in one.
pub open spec fn join(base: Seq<char>, path: Seq<char>) -> Seq<char> {
    if !is_relative(path) {
        path
    } else if base.len() == 0 || base.last() == '/' {
        base + path
    } else {
        base + "/"@ + path
    }
}

/// Whether `path` is relative.
pub fn relative(path: &str) -> (r: bool)
    ensures
        r == is_relative(path@),
{
    path.is_empty() || path.get_char(0) != '/'
}

/// The path that `path` names for one who stands in `base`.
pub fn join_path(base: &str, path: &str) -> (r: String)
    ensures
        r@ == join(base@, path@),
{
    if !relative(path) {
        String::from_str(path)
    } else {
        let n = base.unicode_len();
        if n == 0 || base.get_char(n - 1) == '/' {
            String::from_str(base).concat(path)
        } else {
            String::from_str(base).concat("/").concat(path)
        }
    }
}

} // verus!
