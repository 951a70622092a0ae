//! Locating one root by name.

use vstd::prelude::*;

use super::{Root, RootsError};
use crate::utils::path::{join, spec_join};

verus! {

/// Locate the root named `root` under `roots_dir`.
///
/// The caller states whether the directory exists; the existence check
/// itself is a filesystem probe made by the application. When it exists,
/// the result carries the name and the joined path; otherwise the lookup
/// fails with [`RootsError::DoesNotExist`].
pub fn call(roots_dir: &str, root: &str, exists: bool) -> (r: Result<Root, RootsError>)
    ensures
        exists ==> (r is Ok && r->Ok_0.name@ == root@ && r->Ok_0.path@ == spec_join(
            roots_dir@,
            root@,
        )),
        !exists ==> (r is Err && (r->Err_0 matches RootsError::DoesNotExist { root: n } && n@
            == root@)),
{
    if exists {
        Ok(Root { name: root.to_owned(), path: join(roots_dir, root) })
    } else {
        Err(RootsError::DoesNotExist { root: root.to_owned() })
    }
}

} // verus!
