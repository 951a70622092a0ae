//! Repository roots: the managed clones that trees are created from.

use vstd::prelude::*;
use vstd::string::*;

verus! {

/// A managed repository: its directory basename and its location.
#[derive(Debug)]
pub struct Root {
    pub name: String,
    pub path: String,
}

impl Clone for Root {
    fn clone(&self) -> (r: Self)
        ensures
            r.name@ == self.name@,
            r.path@ == self.path@,
    {
        Root { name: self.name.clone(), path: self.path.clone() }
    }
}

/// The collection of all managed roots.
pub type Roots = Vec<Root>;

/// Failures of root lookup.
#[derive(Debug)]
pub enum RootsError {
    /// No directory of that name exists under the roots area.
    DoesNotExist { root: String },
}

impl RootsError {
    /// The user-facing description of the failure.
    pub fn message(&self) -> (r: String)
        ensures
            (self matches RootsError::DoesNotExist { root } ==> r@ == "Root '"@ + root@
                + "' does not exist"@),
    {
        match self {
            RootsError::DoesNotExist { root } => {
                let mut m: String = "Root '".to_owned();
                m.append(root.as_str());
                m.append("' does not exist");
                proof {
                    assert(m@ =~= "Root '"@ + root@ + "' does not exist"@);
                }
                m
            },
        }
    }
}

} // verus!

pub mod clone;
pub mod get;
pub mod list;
