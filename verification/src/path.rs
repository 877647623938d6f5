//! Path strings: what is absolute, how a name is adjoined, what lies under
//! a directory.

use vstd::prelude::*;
use vstd::string::*;

verus! {

/// A path is absolute when it begins at the root.
pub open spec fn is_absolute_spec(path: Seq<char>) -> bool {
    path.len() > 0 && path[0] == '/'
}

/// `name` adjoined to `base`: an absolute `name` replaces `base`; otherwise
/// the two are put together with exactly one separator between them, and
/// none after an empty `base`.
pub open spec fn join_spec(base: Seq<char>, name: Seq<char>) -> Seq<char> {
    if is_absolute_spec(name) {
        name
    } else if base.len() == 0 || base.last() == '/' {
        base + name
    } else {
        base + seq!['/'] + name
    }
}

/// Whether `path` is `base` or lies below it, compared component by
/// component as the standard library's paths are.
pub uninterp spec fn lies_under(path: Seq<char>, base: Seq<char>) -> bool;

/// Whether `path` begins at the root.
pub fn is_absolute(path: &str) -> (r: bool)
    ensures
        r == is_absolute_spec(path@),
{
    if path.is_empty() {
        false
    } else {
        path.get_char(0) == '/'
    }
}

/// Whether two path strings are the same text.
pub fn same(a: &str, b: &str) -> (r: bool)
    ensures
        r == (a@ == b@),
{
    let x = String::from_str(a);
    let y = String::from_str(b);
    x == y
}

/// `name` adjoined to `base`.
pub fn join(base: &str, name: &str) -> (r: String)
    ensures
        r@ == join_spec(base@, name@),
{
    if is_absolute(name) {
        String::from_str(name)
    } else {
        let n: usize = base.unicode_len();
        let mut out = String::from_str(base);
        if n > 0 && base.get_char(n - 1) != '/' {
            proof {
                reveal_strlit("/");
            }
            out.append("/");
            assert(out@ =~= base@ + seq!['/']);
        }
        out.append(name);
        out
    }
}

/// `std::path::Path::starts_with`: true exactly when every component of
/// `base` is, in order, a leading component of `path`. The contract gives
/// that answer a name and claims nothing else of it.
#[verifier::external_body]
pub(crate) fn starts_with(path: &str, base: &str) -> (r: bool)
    ensures
        r == lies_under(path@, base@),
{
    std::path::Path::new(path).starts_with(std::path::Path::new(base))
}

} // verus!
