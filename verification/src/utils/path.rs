//! Path values are plain strings; joining appends one `/` separator.

use vstd::prelude::*;
use vstd::string::*;

verus! {

/// `base`, a separator, and `name`.
pub open spec fn spec_join(base: Seq<char>, name: Seq<char>) -> Seq<char> {
    base + seq!['/'] + name
}

/// Join one path segment onto a base directory.
pub fn join(base: &str, name: &str) -> (r: String)
    ensures
        r@ == spec_join(base@, name@),
{
    proof {
        reveal_strlit("/");
    }
    let mut out: String = base.to_owned();
    out.append("/");
    out.append(name);
    proof {
        assert("/"@ =~= seq!['/']);
        assert(out@ =~= base@ + seq!['/'] + name@);
    }
    out
}

} // verus!
