//! Path text: joining a base path and a relative segment with a `/`
//! separator.  Paths are plain text to this library; nothing here touches a
//! filesystem.

use vstd::prelude::*;

verus! {

/// `base` and `seg` joined by a single `/`, none added when `base` already
/// ends with one.
pub open spec fn join_path_spec(base: Seq<char>, seg: Seq<char>) -> Seq<char> {
    if base.len() > 0 && base.last() == '/' {
        base + seg
    } else {
        base + "/"@ + seg
    }
}

/// Join a base path and a relative segment.
pub fn join_path(base: &str, seg: &str) -> (r: String)
    ensures
        r@ == join_path_spec(base@, seg@),
{
    let n = base.unicode_len();
    let mut r = String::from_str(base);
    if n == 0 || base.get_char(n - 1) != '/' {
        r.append("/");
    }
    r.append(seg);
    r
}

} // verus!
