//! Plain-text formatting of listing lines. Styling and colors belong to
//! the application.

use vstd::prelude::*;
use vstd::string::*;

use crate::trees::Tree;

verus! {

/// The line shown for one tree: `[root] branch`.
pub fn tree(root: &str, t: &Tree) -> (r: String)
    ensures
        r@ == "["@ + root@ + "] "@ + t.branch@,
{
    let mut m: String = "[".to_owned();
    m.append(root);
    m.append("] ");
    m.append(t.branch.as_str());
    proof {
        assert(m@ =~= "["@ + root@ + "] "@ + t.branch@);
    }
    m
}

} // verus!
