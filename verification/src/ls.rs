//! ls: which directory entries are listed.

use vstd::prelude::*;
use vstd::string::StrSliceExecFns;

verus! {

/// Is a path hidden, that is, does it start with a dot?
pub open spec fn is_hidden(path: Seq<char>) -> bool {
    path.len() > 0 && path[0] == '.'
}

/// An entry is listed when hidden entries are shown, or when its path is
/// not hidden.
pub fn show_entry(path: &str, show_hidden: bool) -> (r: bool)
    ensures
        r == (show_hidden || !is_hidden(path@)),
{
    if show_hidden {
        return true;
    }
    let n = path.unicode_len();
    if n == 0 {
        return true;
    }
    path.get_char(0) != '.'
}

} // verus!
